//! Analyzer findings and the editor diagnostics made from them.
use vstd::prelude::*;
use crate::rules::{
    resolve_range, resolved_span, rule_class, severity_for, severity_of, str_opt, zero_based, RuleClass,
    Severity, Span,
};
use crate::text::{chars_of, owned, string_of};

verus! {

/// One finding of the analyzer, lines 1-based and inclusive.
#[derive(Debug)]
pub struct Violation {
    pub begin_line: u32,
    pub end_line: u32,
    pub description: String,
    pub rule: String,
    pub rule_set: String,
    pub priority: u64,
    pub class: Option<String>,
    pub method: Option<String>,
    pub function: Option<String>,
}

pub open spec fn opt_view(o: Option<String>) -> Option<Seq<char>> {
    match o {
        Some(s) => Some(s@),
        None => None,
    }
}

pub fn copy_opt(o: &Option<String>) -> (r: Option<String>)
    ensures
        opt_view(r) == opt_view(*o),
{
    match o {
        Some(s) => Some(s.clone()),
        None => None,
    }
}

pub struct ViolationView {
    pub begin_line: u32,
    pub end_line: u32,
    pub description: Seq<char>,
    pub rule: Seq<char>,
    pub rule_set: Seq<char>,
    pub priority: u64,
    pub class: Option<Seq<char>>,
    pub method: Option<Seq<char>>,
    pub function: Option<Seq<char>>,
}

impl View for Violation {
    type V = ViolationView;

    open spec fn view(&self) -> ViolationView {
        ViolationView {
            begin_line: self.begin_line,
            end_line: self.end_line,
            description: self.description@,
            rule: self.rule@,
            rule_set: self.rule_set@,
            priority: self.priority,
            class: opt_view(self.class),
            method: opt_view(self.method),
            function: opt_view(self.function),
        }
    }
}

/// The fields of one finding as the analyzer's JSON holds them, each
/// absent where the record lacks it or holds another kind of value.
pub struct RawViolation {
    pub begin_line: Option<u64>,
    pub end_line: Option<u64>,
    pub description: Option<String>,
    /// The record has a `rule` key, whatever its value.
    pub has_rule: bool,
    pub rule: Option<String>,
    pub rule_set: Option<String>,
    pub priority: Option<u64>,
    pub class: Option<String>,
    pub method: Option<String>,
    pub function: Option<String>,
}

/// The fields of one finding record, as values.
pub struct RecordView {
    pub begin_line: Option<u64>,
    pub end_line: Option<u64>,
    pub description: Option<Seq<char>>,
    pub has_rule: bool,
    pub rule: Option<Seq<char>>,
    pub rule_set: Option<Seq<char>>,
    pub priority: Option<u64>,
    pub class: Option<Seq<char>>,
    pub method: Option<Seq<char>>,
    pub function: Option<Seq<char>>,
}

impl View for RawViolation {
    type V = RecordView;

    open spec fn view(&self) -> RecordView {
        RecordView {
            begin_line: self.begin_line,
            end_line: self.end_line,
            description: opt_view(self.description),
            has_rule: self.has_rule,
            rule: opt_view(self.rule),
            rule_set: opt_view(self.rule_set),
            priority: self.priority,
            class: opt_view(self.class),
            method: opt_view(self.method),
            function: opt_view(self.function),
        }
    }
}

/// Priority of a record that gives none.
pub const DEFAULT_PRIORITY: u64 = 3;

pub open spec fn or_empty(o: Option<Seq<char>>) -> Seq<char> {
    match o {
        Some(s) => s,
        None => seq![],
    }
}

/// A record makes a finding when it has a begin line, a description and a
/// rule key; the end line defaults to the begin line, the priority to
/// `DEFAULT_PRIORITY`, rule and rule set to empty text.
pub open spec fn decoded_violation(raw: RecordView) -> Option<ViolationView> {
    if raw.begin_line is Some && raw.description is Some && raw.has_rule {
        let b = raw.begin_line->0 as u32;
        Some(
            ViolationView {
                begin_line: b,
                end_line: match raw.end_line {
                    Some(e) => e as u32,
                    None => b,
                },
                description: raw.description->0,
                rule: or_empty(raw.rule),
                rule_set: or_empty(raw.rule_set),
                priority: match raw.priority {
                    Some(p) => p,
                    None => DEFAULT_PRIORITY,
                },
                class: raw.class,
                method: raw.method,
                function: raw.function,
            },
        )
    } else {
        None
    }
}

fn or_empty_string(o: &Option<String>) -> (r: String)
    ensures
        r@ == or_empty(opt_view(*o)),
{
    match o {
        Some(s) => s.clone(),
        None => string_of(&Vec::new()),
    }
}

pub fn decode_violation(raw: &RawViolation) -> (r: Option<Violation>)
    ensures
        match decoded_violation(raw@) {
            Some(v) => r is Some && r->0@ == v,
            None => r is None,
        },
{
    match (raw.begin_line, &raw.description) {
        (Some(b), Some(d)) => {
            if !raw.has_rule {
                return None;
            }
            let begin = b as u32;
            let end = match raw.end_line {
                Some(e) => e as u32,
                None => begin,
            };
            let priority = match raw.priority {
                Some(p) => p,
                None => DEFAULT_PRIORITY,
            };
            let v = Violation {
                begin_line: begin,
                end_line: end,
                description: d.clone(),
                rule: or_empty_string(&raw.rule),
                rule_set: or_empty_string(&raw.rule_set),
                priority,
                class: copy_opt(&raw.class),
                method: copy_opt(&raw.method),
                function: copy_opt(&raw.function),
            };
            assert(v@ == decoded_violation(raw@)->0);
            Some(v)
        },
        _ => None,
    }
}

/// An editor diagnostic.
#[derive(Debug)]
pub struct Diagnostic {
    pub range: Span,
    pub severity: Severity,
    /// The rule name, when there is one.
    pub code: Option<String>,
    pub source: String,
    pub message: String,
    /// Documentation page of the rule set.
    pub code_href: Option<String>,
    pub rule: String,
    pub rule_set: String,
    pub priority: u64,
    pub class: Option<String>,
    pub method: Option<String>,
    pub function: Option<String>,
}

pub struct DiagnosticView {
    pub range: Span,
    pub severity: Severity,
    pub code: Option<Seq<char>>,
    pub source: Seq<char>,
    pub message: Seq<char>,
    pub code_href: Option<Seq<char>>,
    pub rule: Seq<char>,
    pub rule_set: Seq<char>,
    pub priority: u64,
    pub class: Option<Seq<char>>,
    pub method: Option<Seq<char>>,
    pub function: Option<Seq<char>>,
}

impl View for Diagnostic {
    type V = DiagnosticView;

    open spec fn view(&self) -> DiagnosticView {
        DiagnosticView {
            range: self.range,
            severity: self.severity,
            code: opt_view(self.code),
            source: self.source@,
            message: self.message@,
            code_href: opt_view(self.code_href),
            rule: self.rule@,
            rule_set: self.rule_set@,
            priority: self.priority,
            class: opt_view(self.class),
            method: opt_view(self.method),
            function: opt_view(self.function),
        }
    }
}

impl Diagnostic {
    /// A copy with the same contents.
    pub fn copy(&self) -> (r: Diagnostic)
        ensures
            r@ == self@,
    {
        Diagnostic {
            range: self.range,
            severity: self.severity,
            code: copy_opt(&self.code),
            source: self.source.clone(),
            message: self.message.clone(),
            code_href: copy_opt(&self.code_href),
            rule: self.rule.clone(),
            rule_set: self.rule_set.clone(),
            priority: self.priority,
            class: copy_opt(&self.class),
            method: copy_opt(&self.method),
            function: copy_opt(&self.function),
        }
    }
}

pub open spec fn diag_views(v: Seq<Diagnostic>) -> Seq<DiagnosticView> {
    Seq::new(v.len(), |i: int| v[i]@)
}

/// A copy of each diagnostic, in order.
pub fn copy_all(v: &Vec<Diagnostic>) -> (r: Vec<Diagnostic>)
    ensures
        diag_views(r@) == diag_views(v@),
{
    let mut r: Vec<Diagnostic> = Vec::new();
    let mut i: usize = 0;
    while i < v.len()
        invariant
            0 <= i <= v.len(),
            r@.len() == i,
            diag_views(r@) == diag_views(v@).subrange(0, i as int),
        decreases v.len() - i,
    {
        let ghost prev = r@;
        let c = v[i].copy();
        r.push(c);
        assert forall|j: int| 0 <= j < i + 1 implies #[trigger] diag_views(r@)[j] == diag_views(
            v@,
        )[j] by {
            if j < i {
                assert(r@[j] == prev[j]);
                assert(diag_views(prev)[j] == diag_views(v@).subrange(0, i as int)[j]);
            }
        }
        i = i + 1;
        assert(diag_views(r@) =~= diag_views(v@).subrange(0, i as int));
    }
    assert(diag_views(v@).subrange(0, v.len() as int) =~= diag_views(v@));
    r
}

/// What `str::to_lowercase` gives for `s`.
pub uninterp spec fn lower_of(s: Seq<char>) -> Seq<char>;

/// An ASCII letter.
pub open spec fn ascii_letter(c: char) -> bool {
    ('a' <= c && c <= 'z') || ('A' <= c && c <= 'Z')
}

/// Every character of `s` is ASCII.
pub open spec fn all_ascii(s: Seq<char>) -> bool {
    forall|i: int| 0 <= i < s.len() ==> s[i] <= '\u{7f}'
}

/// Relies on `str::to_lowercase`: the lowercase mapping of every character,
/// a function of the text alone; on ASCII text it turns letters into
/// lowercase letters and keeps every other character.
#[verifier::external_body]
fn lowercase(s: &str) -> (r: String)
    ensures
        r@ == lower_of(s@),
        all_ascii(s@) ==> r@.len() == s@.len() && forall|i: int|
            0 <= i < s@.len() ==> if ascii_letter(#[trigger] s@[i]) {
                'a' <= r@[i] && r@[i] <= 'z'
            } else {
                r@[i] == s@[i]
            },
{
    s.to_lowercase()
}

/// Whether `url::Url::parse` accepts `s`.
pub uninterp spec fn url_parses(s: Seq<char>) -> bool;

/// Prefix of the rule sets' documentation pages.
pub open spec fn rules_site() -> Seq<char> {
    "https://phpmd.org/rules/"@
}

/// Lowercase ASCII letters and digits only.
pub open spec fn plain_name(t: Seq<char>) -> bool {
    forall|i: int| 0 <= i < t.len() ==> ('a' <= #[trigger] t[i] && t[i] <= 'z') || ('0' <= t[i] && t[i] <= '9')
}

/// An address on the documentation site: the site's prefix, a plain page
/// name, `.html`.
pub open spec fn rules_page(s: Seq<char>) -> bool {
    let n = rules_site().len();
    &&& s.len() >= n + 5
    &&& s.subrange(0, n as int) == rules_site()
    &&& s.subrange(s.len() - 5, s.len() as int) == ".html"@
    &&& plain_name(s.subrange(n as int, s.len() - 5))
}

/// Relies on `url::Url::parse`: whether the text is a valid absolute URL,
/// a function of the text alone; an `https` address on the documentation
/// site whose page name is lowercase letters and digits is one.
#[verifier::external_body]
fn url_accepts(s: &str) -> (r: bool)
    ensures
        r == url_parses(s@),
        rules_page(s@) ==> r,
{
    url::Url::parse(s).is_ok()
}

/// `s` without its space characters.
pub open spec fn no_spaces(s: Seq<char>) -> Seq<char>
    decreases s.len(),
{
    if s.len() == 0 {
        s
    } else if s.last() == ' ' {
        no_spaces(s.drop_last())
    } else {
        no_spaces(s.drop_last()).push(s.last())
    }
}

fn drop_spaces(s: &Vec<char>) -> (r: Vec<char>)
    ensures
        r@ == no_spaces(s@),
{
    let mut r: Vec<char> = Vec::new();
    let mut i: usize = 0;
    while i < s.len()
        invariant
            0 <= i <= s.len(),
            r@ == no_spaces(s@.take(i as int)),
        decreases s.len() - i,
    {
        assert(s@.take(i + 1).drop_last() =~= s@.take(i as int));
        if s[i] != ' ' {
            r.push(s[i]);
        }
        i = i + 1;
    }
    assert(s@.take(s.len() as int) =~= s@);
    r
}

/// Documentation page of a rule set: its name lowercased, spaces removed.
pub open spec fn rule_doc_url(rule_set: Seq<char>) -> Seq<char> {
    rules_site() + no_spaces(lower_of(rule_set)) + ".html"@
}

/// A rule set name of ASCII letters, digits and spaces.
pub open spec fn plain_rule_set(rs: Seq<char>) -> bool {
    forall|i: int|
        0 <= i < rs.len() ==> ascii_letter(#[trigger] rs[i]) || ('0' <= rs[i] && rs[i] <= '9')
            || rs[i] == ' '
}

proof fn lemma_no_spaces_plain(l: Seq<char>)
    requires
        forall|i: int|
            0 <= i < l.len() ==> #[trigger] l[i] == ' ' || ('a' <= l[i] && l[i] <= 'z') || ('0'
                <= l[i] && l[i] <= '9'),
    ensures
        plain_name(no_spaces(l)),
    decreases l.len(),
{
    if l.len() > 0 {
        let p = l.drop_last();
        assert forall|i: int| 0 <= i < p.len() implies #[trigger] p[i] == ' ' || ('a' <= p[i] && p[i]
            <= 'z') || ('0' <= p[i] && p[i] <= '9') by {
            assert(p[i] == l[i]);
        }
        lemma_no_spaces_plain(p);
        assert(l.last() == l[l.len() - 1]);
    }
}

fn doc_url(rule_set: &str) -> (r: String)
    ensures
        r@ == rule_doc_url(rule_set@),
        plain_rule_set(rule_set@) ==> rules_page(r@),
{
    let lower = lowercase(rule_set);
    let mut u = chars_of("https://phpmd.org/rules/");
    let m = drop_spaces(&chars_of(lower.as_str()));
    let ghost head = u@;
    crate::text::extend(&mut u, &m);
    crate::text::extend(&mut u, &chars_of(".html"));
    proof {
        if plain_rule_set(rule_set@) {
            let l = lower@;
            assert forall|i: int| 0 <= i < rule_set@.len() implies rule_set@[i] <= '\u{7f}' by {
                assert(ascii_letter(rule_set@[i]) || ('0' <= rule_set@[i] && rule_set@[i] <= '9')
                    || rule_set@[i] == ' ');
            }
            assert forall|i: int| 0 <= i < l.len() implies #[trigger] l[i] == ' ' || ('a' <= l[i]
                && l[i] <= 'z') || ('0' <= l[i] && l[i] <= '9') by {
                assert(ascii_letter(rule_set@[i]) || ('0' <= rule_set@[i] && rule_set@[i] <= '9')
                    || rule_set@[i] == ' ');
            }
            lemma_no_spaces_plain(l);
            reveal_strlit("https://phpmd.org/rules/");
            reveal_strlit(".html");
            let n = rules_site().len();
            let w = u@;
            assert(w == rules_site() + m@ + ".html"@);
            assert(w.subrange(0, n as int) =~= rules_site());
            assert(w.subrange(w.len() - 5, w.len() as int) =~= ".html"@);
            assert(w.subrange(n as int, w.len() - 5) =~= m@);
        }
    }
    string_of(&u)
}

/// The diagnostic for finding `v` over the document text `content`; none
/// when the rule set's documentation address is not a valid URL, which
/// never happens for a rule set named with ASCII letters, digits and
/// spaces.
pub open spec fn diagnostic_of(v: ViolationView, content: Option<Seq<char>>) -> Option<DiagnosticView> {
    let href = if v.rule_set.len() == 0 {
        None
    } else {
        Some(rule_doc_url(v.rule_set))
    };
    if href matches Some(u) && !plain_rule_set(v.rule_set) && !url_parses(u) {
        None
    } else {
        Some(
            DiagnosticView {
                range: resolved_span(v.rule, v.description, v.begin_line, v.end_line, content),
                severity: severity_of(v.priority),
                code: if v.rule.len() == 0 {
                    None
                } else {
                    Some(v.rule)
                },
                source: "phpmd"@,
                message: v.description,
                code_href: href,
                rule: v.rule,
                rule_set: v.rule_set,
                priority: v.priority,
                class: v.class,
                method: v.method,
                function: v.function,
            },
        )
    }
}

/// Converts one finding, its range resolved over `content`, the document
/// text when it is at hand.
pub fn convert_violation_to_diagnostic(v: &Violation, content: Option<&str>) -> (r: Option<
    Diagnostic,
>)
    ensures
        match diagnostic_of(v@, str_opt(content)) {
            Some(d) => r is Some && r->0@ == d,
            None => r is None,
        },
        plain_rule_set(v@.rule_set) ==> r is Some,
{
    let href = if v.rule_set.as_str().is_empty() {
        None
    } else {
        let u = doc_url(v.rule_set.as_str());
        if !url_accepts(u.as_str()) {
            return None;
        }
        Some(u)
    };
    let range = resolve_range(v.begin_line, v.end_line, v.rule.as_str(), v.description.as_str(), content);
    let code = if v.rule.as_str().is_empty() {
        None
    } else {
        Some(v.rule.clone())
    };
    Some(
        Diagnostic {
            range,
            severity: severity_for(v.priority),
            code,
            source: owned("phpmd"),
            message: v.description.clone(),
            code_href: href,
            rule: v.rule.clone(),
            rule_set: v.rule_set.clone(),
            priority: v.priority,
            class: copy_opt(&v.class),
            method: copy_opt(&v.method),
            function: copy_opt(&v.function),
        },
    )
}

pub open spec fn violation_views(v: Seq<Violation>) -> Seq<ViolationView> {
    Seq::new(v.len(), |i: int| v[i]@)
}

/// The diagnostics of the findings `vs`, in order, without those that
/// make none.
pub open spec fn diagnostics_of(vs: Seq<ViolationView>, content: Option<Seq<char>>) -> Seq<DiagnosticView>
    decreases vs.len(),
{
    if vs.len() == 0 {
        seq![]
    } else {
        let rest = diagnostics_of(vs.drop_last(), content);
        match diagnostic_of(vs.last(), content) {
            Some(d) => rest.push(d),
            None => rest,
        }
    }
}

/// Converts every finding, in order, over the document text `content`.
pub fn diagnostics_for(violations: &Vec<Violation>, content: Option<&str>) -> (r: Vec<Diagnostic>)
    ensures
        diag_views(r@) == diagnostics_of(violation_views(violations@), str_opt(content)),
{
    let mut r: Vec<Diagnostic> = Vec::new();
    let mut i: usize = 0;
    while i < violations.len()
        invariant
            0 <= i <= violations.len(),
            diag_views(r@) == diagnostics_of(
                violation_views(violations@).take(i as int),
                str_opt(content),
            ),
        decreases violations.len() - i,
    {
        let ghost vs = violation_views(violations@);
        assert(vs.take(i + 1).drop_last() =~= vs.take(i as int));
        assert(vs.take(i + 1).last() == violations@[i as int]@);
        match convert_violation_to_diagnostic(&violations[i], content) {
            Some(d) => {
                let ghost prev = r@;
                let ghost dv = d@;
                r.push(d);
                assert(diag_views(r@) =~= diag_views(prev).push(dv));
            },
            None => {},
        }
        i = i + 1;
    }
    assert(violation_views(violations@).take(violations.len() as int) =~= violation_views(
        violations@,
    ));
    r
}

/// A finding of a method rule over more than five lines, whose rule set is
/// named with ASCII letters, digits and spaces, becomes exactly one
/// diagnostic, shown on its first line only, with the severity of its
/// priority and its description as message.
pub proof fn lemma_long_method_finding(v: ViolationView, content: Option<Seq<char>>)
    requires
        rule_class(v.rule) == RuleClass::Method,
        v.end_line > v.begin_line,
        v.end_line - v.begin_line > 5,
        plain_rule_set(v.rule_set),
    ensures
        diagnostics_of(seq![v], content).len() == 1,
        ({
            let d = diagnostics_of(seq![v], content)[0];
            &&& d.severity == severity_of(v.priority)
            &&& d.range.start_line == zero_based(v.begin_line)
            &&& d.range.end_line == zero_based(v.begin_line)
            &&& d.message == v.description
        }),
{
    let vs = seq![v];
    assert(vs.drop_last() =~= Seq::<ViolationView>::empty());
    assert(vs.last() == v);
    assert(diagnostics_of(vs.drop_last(), content) =~= Seq::<DiagnosticView>::empty());
}

} // verus!
