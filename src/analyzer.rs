//! How the analyzer is invoked: its command line, its temporary input
//! file, and the choice of analyzer and ruleset.
use vstd::prelude::*;
use crate::text::{chars_of, contains, has_text, matches_at, occurs_at, owned, string_of};

verus! {

/// Rulesets used when no configuration names any.
pub const DEFAULT_RULESETS: &'static str = "cleancode,codesize,controversial,design,naming,unusedcode";

/// Analyzer run when neither a project-local nor a bundled one is found.
pub const SYSTEM_ANALYZER: &'static str = "phpmd";

/// Configuration files looked for in a project root, in order.
pub const SERVER_CONFIG_FILES: [&'static str; 4] = ["phpmd.xml", "phpmd.xml.dist", ".phpmd.xml", ".phpmd.xml.dist"];

pub open spec fn ends_with(s: Seq<char>, p: Seq<char>) -> bool {
    p.len() <= s.len() && occurs_at(s, p, s.len() - p.len())
}

pub fn ends_with_text(s: &str, p: &str) -> (r: bool)
    ensures
        r == ends_with(s@, p@),
{
    let v = chars_of(s);
    let q = chars_of(p);
    if q.len() > v.len() {
        return false;
    }
    matches_at(&v, &q, v.len() - q.len())
}

pub open spec fn string_views(v: Seq<String>) -> Seq<Seq<char>> {
    Seq::new(v.len(), |i: int| v[i]@)
}

/// A program and its arguments.
pub struct Invocation {
    pub program: String,
    pub args: Vec<String>,
}

/// The arguments that run a PHAR archive through PHP with error output
/// switched off.
pub open spec fn php_args(analyzer: Seq<char>) -> Seq<Seq<char>> {
    seq![
        "-d"@,
        "error_reporting=0"@,
        "-d"@,
        "display_errors=0"@,
        "-d"@,
        "display_startup_errors=0"@,
        "-d"@,
        "log_errors=0"@,
        analyzer,
    ]
}

/// The command line that analyzes `target` with `analyzer`: the file, the
/// JSON format, errors to the null device, then the rulesets or
/// configuration file. A PHAR archive runs through `php`.
pub open spec fn invocation_of(analyzer: Seq<char>, target: Seq<char>, rulesets: Option<Seq<char>>) -> (Seq<char>, Seq<Seq<char>>) {
    let tail = seq![
        target,
        "json"@,
        "--error-file"@,
        "/dev/null"@,
        match rulesets {
            Some(r) => r,
            None => DEFAULT_RULESETS@,
        },
    ];
    if ends_with(analyzer, ".phar"@) {
        ("php"@, php_args(analyzer) + tail)
    } else {
        (analyzer, tail)
    }
}

fn push_text(v: &mut Vec<String>, s: &str)
    ensures
        string_views(final(v)@) == string_views(old(v)@).push(s@),
{
    v.push(owned(s));
    assert(string_views(v@) =~= string_views(old(v)@).push(s@));
}

pub fn build_invocation(analyzer: &str, target: &str, rulesets: Option<&str>) -> (r: Invocation)
    ensures
        (r.program@, string_views(r.args@)) == invocation_of(analyzer@, target@, match rulesets {
            Some(s) => Some(s@),
            None => None,
        }),
{
    let mut args: Vec<String> = Vec::new();
    let phar = ends_with_text(analyzer, ".phar");
    let program = if phar {
        push_text(&mut args, "-d");
        push_text(&mut args, "error_reporting=0");
        push_text(&mut args, "-d");
        push_text(&mut args, "display_errors=0");
        push_text(&mut args, "-d");
        push_text(&mut args, "display_startup_errors=0");
        push_text(&mut args, "-d");
        push_text(&mut args, "log_errors=0");
        push_text(&mut args, analyzer);
        owned("php")
    } else {
        owned(analyzer)
    };
    let ghost head = string_views(args@);
    push_text(&mut args, target);
    push_text(&mut args, "json");
    push_text(&mut args, "--error-file");
    push_text(&mut args, "/dev/null");
    match rulesets {
        Some(r) => push_text(&mut args, r),
        None => push_text(&mut args, DEFAULT_RULESETS),
    }
    let ghost rs = match rulesets {
        Some(s) => Some(s@),
        None => None,
    };
    proof {
        if phar {
            assert(string_views(args@) =~= invocation_of(analyzer@, target@, rs).1);
        } else {
            assert(head.len() == 0);
            assert(string_views(args@) =~= invocation_of(analyzer@, target@, rs).1);
        }
    }
    Invocation { program, args }
}

/// Name of the temporary file that holds a document under analysis.
pub open spec fn temp_name_of(unique: Seq<char>) -> Seq<char> {
    "phpmd-"@ + unique + ".php"@
}

pub fn temp_file_name(unique: &str) -> (r: String)
    ensures
        r@ == temp_name_of(unique@),
{
    let mut v = chars_of("phpmd-");
    let u = chars_of(unique);
    let e = chars_of(".php");
    let ghost start = v@;
    let mut i: usize = 0;
    while i < u.len()
        invariant
            0 <= i <= u.len(),
            v@ == start + u@.subrange(0, i as int),
        decreases u.len() - i,
    {
        v.push(u[i]);
        i = i + 1;
        assert(v@ =~= start + u@.subrange(0, i as int));
    }
    let ghost mid = v@;
    i = 0;
    while i < e.len()
        invariant
            0 <= i <= e.len(),
            v@ == mid + e@.subrange(0, i as int),
        decreases e.len() - i,
    {
        v.push(e[i]);
        i = i + 1;
        assert(v@ =~= mid + e@.subrange(0, i as int));
    }
    assert(u@.subrange(0, u.len() as int) =~= u@);
    assert(e@.subrange(0, e.len() as int) =~= e@);
    assert(v@ =~= temp_name_of(unique@));
    string_of(&v)
}

/// Relies on `uuid::Uuid::new_v4`, written hyphenated: 36 characters of a
/// random identifier.
#[verifier::external_body]
fn random_id() -> (r: String)
    ensures
        r@.len() == 36,
{
    uuid::Uuid::new_v4().hyphenated().to_string()
}

/// A fresh temporary file name: a random identifier inside the fixed
/// prefix and extension.
pub fn fresh_temp_file_name() -> (r: String)
    ensures
        exists|u: Seq<char>| u.len() == 36 && r@ == temp_name_of(u),
{
    let u = random_id();
    temp_file_name(u.as_str())
}

/// A configuration file's contents define a ruleset.
pub open spec fn defines_ruleset(contents: Seq<char>) -> bool {
    contains(contents, "<ruleset"@) && contains(contents, "</ruleset>"@)
}

pub fn is_ruleset_config(contents: &str) -> (r: bool)
    ensures
        r == defines_ruleset(contents@),
{
    let v = chars_of(contents);
    has_text(&v, "<ruleset") && has_text(&v, "</ruleset>")
}

/// A configuration file found in the project root, with its contents when
/// it could be read.
pub struct ConfigCandidate {
    pub path: String,
    pub contents: Option<String>,
}

pub open spec fn usable(c: ConfigCandidate) -> bool {
    c.contents matches Some(t) && defines_ruleset(t@)
}

/// The path of the first usable candidate, else the default rulesets.
pub open spec fn discovered(cs: Seq<ConfigCandidate>) -> Seq<char>
    decreases cs.len(),
{
    if cs.len() == 0 {
        DEFAULT_RULESETS@
    } else if usable(cs[0]) {
        cs[0].path@
    } else {
        discovered(cs.drop_first())
    }
}

pub fn discover_rulesets(candidates: &Vec<ConfigCandidate>) -> (r: String)
    ensures
        r@ == discovered(candidates@),
{
    let mut i: usize = 0;
    assert(candidates@.skip(0) =~= candidates@);
    while i < candidates.len()
        invariant
            0 <= i <= candidates.len(),
            discovered(candidates@) == discovered(candidates@.skip(i as int)),
        decreases candidates.len() - i,
    {
        assert(candidates@.skip(i as int).drop_first() =~= candidates@.skip(i + 1));
        let c = &candidates[i];
        match &c.contents {
            Some(t) => {
                if is_ruleset_config(t.as_str()) {
                    return c.path.clone();
                }
            },
            None => {},
        }
        i = i + 1;
    }
    owned(DEFAULT_RULESETS)
}

/// Analyzer to run: the project's own, else the bundled one, else the one
/// on the system path.
pub open spec fn analyzer_choice(project_local: Option<Seq<char>>, bundled: Option<Seq<char>>) -> Seq<char> {
    match project_local {
        Some(p) => p,
        None => match bundled {
            Some(b) => b,
            None => SYSTEM_ANALYZER@,
        },
    }
}

} // verus!
