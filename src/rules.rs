//! Rule-aware resolution of an analyzer finding's line span into the
//! range an editor highlights, and the severity of a finding.
use vstd::prelude::*;
use crate::text::{
    chars_of, contains, first_from, first_index, has_text, is_text, leading_ws, leading_ws_len,
    lemma_first_from_range, lines_of, split_lines, starts_with, starts_with_text, views,
};

verus! {

/// Severity of a diagnostic, most severe first.
#[derive(Clone, Copy, Debug, PartialEq, Eq, Structural)]
pub enum Severity {
    Error,
    Warning,
    Information,
    Hint,
}

/// Priorities 1 and 2 are errors, 3 and 4 warnings, anything else is
/// information.
pub open spec fn severity_of(priority: u64) -> Severity {
    if 1 <= priority && priority <= 2 {
        Severity::Error
    } else if 3 <= priority && priority <= 4 {
        Severity::Warning
    } else {
        Severity::Information
    }
}

pub fn severity_for(priority: u64) -> (r: Severity)
    ensures
        r == severity_of(priority),
{
    if 1 <= priority && priority <= 2 {
        Severity::Error
    } else if 3 <= priority && priority <= 4 {
        Severity::Warning
    } else {
        Severity::Information
    }
}

/// How a rule's reported span collapses into a display range.
#[derive(Clone, Copy, Debug, PartialEq, Eq, Structural)]
pub enum RuleClass {
    /// Property naming: reported at the class, shown at the declaration.
    Property,
    /// Class metrics: the class line only.
    Class,
    /// Method metrics: the signature line when the span is long.
    Method,
    /// Findings about one line, such as short or long names: that line
    /// only.
    SingleLine,
    /// Everything else: the first line when the span is very long.
    Default,
}

pub open spec fn rule_class(r: Seq<char>) -> RuleClass {
    if r == "CamelCasePropertyName"@ || r == "CamelCaseParameterName"@ {
        RuleClass::Property
    } else if r == "TooManyPublicMethods"@ || r == "TooManyMethods"@ || r == "TooManyFields"@
        || r == "ExcessivePublicCount"@ || r == "ExcessiveClassComplexity"@
        || r == "ExcessiveClassLength"@ || r == "CouplingBetweenObjects"@
        || r == "NumberOfChildren"@ || r == "DepthOfInheritance"@ || r == "CamelCaseClassName"@
        || r == "CamelCaseVariableName"@ {
        RuleClass::Class
    } else if r == "CyclomaticComplexity"@ || r == "NPathComplexity"@
        || r == "ExcessiveMethodLength"@ || r == "ExcessiveParameterList"@
        || r == "UnusedFormalParameter"@ || r == "ConstructorWithNameAsEnclosingClass"@
        || r == "CamelCaseMethodName"@ {
        RuleClass::Method
    } else if r == "ElseExpression"@ || r == "ShortVariable"@ || r == "LongVariable"@
        || r == "ShortMethodName"@ || r == "ShortClassName"@ || r == "LongClassName"@
        || r == "GotoStatement"@ || r == "ExitExpression"@ || r == "EvalExpression"@ {
        RuleClass::SingleLine
    } else {
        RuleClass::Default
    }
}

/// The class of the rule named `rule`.
pub fn classify(rule: &str) -> (r: RuleClass)
    ensures
        r == rule_class(rule@),
{
    let v = chars_of(rule);
    if is_text(&v, "CamelCasePropertyName") || is_text(&v, "CamelCaseParameterName") {
        RuleClass::Property
    } else if is_text(&v, "TooManyPublicMethods") || is_text(&v, "TooManyMethods") || is_text(
        &v,
        "TooManyFields",
    ) || is_text(&v, "ExcessivePublicCount") || is_text(&v, "ExcessiveClassComplexity")
        || is_text(&v, "ExcessiveClassLength") || is_text(&v, "CouplingBetweenObjects")
        || is_text(&v, "NumberOfChildren") || is_text(&v, "DepthOfInheritance") || is_text(
        &v,
        "CamelCaseClassName",
    ) || is_text(&v, "CamelCaseVariableName") {
        RuleClass::Class
    } else if is_text(&v, "CyclomaticComplexity") || is_text(&v, "NPathComplexity") || is_text(
        &v,
        "ExcessiveMethodLength",
    ) || is_text(&v, "ExcessiveParameterList") || is_text(&v, "UnusedFormalParameter")
        || is_text(&v, "ConstructorWithNameAsEnclosingClass")
        || is_text(&v, "CamelCaseMethodName") {
        RuleClass::Method
    } else if is_text(&v, "ElseExpression") || is_text(&v, "ShortVariable") || is_text(&v, "ShortMethodName")
        || is_text(&v, "ShortClassName") || is_text(&v, "LongClassName") || is_text(
        &v,
        "LongVariable",
    ) || is_text(&v, "GotoStatement") || is_text(&v, "ExitExpression") || is_text(
        &v,
        "EvalExpression",
    ) {
        RuleClass::SingleLine
    } else {
        RuleClass::Default
    }
}

/// The 1-based line span shown for a finding of class `class` reported on
/// `begin`..`end`; `prop` is the declaration line found for a property
/// rule.
pub open spec fn span_lines(class: RuleClass, begin: u32, end: u32, prop: Option<u32>) -> (u32, u32) {
    match class {
        RuleClass::Property => match prop {
            Some(l) => (l, l),
            None => (begin, begin),
        },
        RuleClass::Class => (begin, begin),
        RuleClass::SingleLine => (begin, begin),
        RuleClass::Method => if end > begin && end - begin > 5 {
            (begin, begin)
        } else {
            (begin, end)
        },
        RuleClass::Default => if end > begin && end - begin > 10 {
            (begin, begin)
        } else {
            (begin, end)
        },
    }
}

pub fn collapse_span(class: RuleClass, begin: u32, end: u32, prop: Option<u32>) -> (r: (u32, u32))
    ensures
        r == span_lines(class, begin, end, prop),
{
    match class {
        RuleClass::Property => match prop {
            Some(l) => (l, l),
            None => (begin, begin),
        },
        RuleClass::Class => (begin, begin),
        RuleClass::SingleLine => (begin, begin),
        RuleClass::Method => if end > begin && end - begin > 5 {
            (begin, begin)
        } else {
            (begin, end)
        },
        RuleClass::Default => if end > begin && end - begin > 10 {
            (begin, begin)
        } else {
            (begin, end)
        },
    }
}

/// What `char::is_alphanumeric` answers for `c`.
pub uninterp spec fn alphanumeric(c: char) -> bool;

/// An ASCII letter or digit.
pub open spec fn ascii_alnum(c: char) -> bool {
    ('a' <= c && c <= 'z') || ('A' <= c && c <= 'Z') || ('0' <= c && c <= '9')
}

/// Relies on `char::is_alphanumeric`: Unicode alphabetic or numeric, which
/// among ASCII characters means a letter or a digit.
#[verifier::external_body]
fn is_alnum(c: char) -> (r: bool)
    ensures
        r == alphanumeric(c),
        c <= '\u{7f}' ==> (r <==> ascii_alnum(c)),
{
    c.is_alphanumeric()
}

/// A character of an identifier: a letter, a digit or `_`.
pub open spec fn ident_char(c: char) -> bool {
    if c <= '\u{7f}' {
        ascii_alnum(c) || c == '_'
    } else {
        alphanumeric(c)
    }
}

/// End of the identifier that starts at `i`.
pub open spec fn ident_end(s: Seq<char>, i: int) -> int
    decreases s.len() - i,
{
    if i < 0 || i >= s.len() {
        s.len() as int
    } else if ident_char(s[i]) {
        ident_end(s, i + 1)
    } else {
        i
    }
}

proof fn lemma_ident_end(s: Seq<char>, i: int)
    requires
        0 <= i <= s.len(),
    ensures
        i <= ident_end(s, i) <= s.len(),
    decreases s.len() - i,
{
    if i < s.len() && ident_char(s[i]) {
        lemma_ident_end(s, i + 1);
    }
}

/// The identifier after the first `$` of a finding's description.
pub open spec fn property_name_of(d: Seq<char>) -> Option<Seq<char>> {
    match first_from(d, '$', 0) {
        Some(k) => Some(d.subrange(k + 1, ident_end(d, k + 1))),
        None => None,
    }
}

fn name_in(d: &Vec<char>) -> (r: Option<Vec<char>>)
    ensures
        match property_name_of(d@) {
            Some(n) => r is Some && r->0@ == n,
            None => r is None,
        },
{
    match first_index(d, '$') {
        Some(k) => {
            proof {
                lemma_first_from_range(d@, '$', 0);
            }
            let mut out: Vec<char> = Vec::new();
            let mut i: usize = k + 1;
            while i < d.len() && (is_alnum(d[i]) || d[i] == '_')
                invariant
                    k + 1 <= i <= d.len(),
                    out@ == d@.subrange(k + 1, i as int),
                    ident_end(d@, k + 1) == ident_end(d@, i as int),
                decreases d.len() - i,
            {
                out.push(d[i]);
                i = i + 1;
                assert(out@ =~= d@.subrange(k + 1, i as int));
            }
            Some(out)
        },
        None => None,
    }
}

/// The property named in a finding's description: the identifier after
/// its first `$`.
pub fn property_name(description: &str) -> (r: Option<String>)
    ensures
        match property_name_of(description@) {
            Some(n) => r is Some && r->0@ == n,
            None => r is None,
        },
{
    let d = chars_of(description);
    match name_in(&d) {
        Some(n) => Some(crate::text::string_of(&n)),
        None => None,
    }
}

/// A comment line: its first non-blank characters are `//`, `/*` or `*`.
pub open spec fn is_comment(l: Seq<char>) -> bool {
    let t = l.skip(leading_ws(l) as int);
    starts_with(t, "//"@) || starts_with(t, "/*"@) || starts_with(t, "*"@)
}

/// Line `l` declares the property `n`: it names `$n`, is no comment, no
/// function signature and no `$this->n` or `self::$n` access, and shows a
/// modifier, an assignment or a terminating `;` on `$n`.
pub open spec fn declares_property(l: Seq<char>, n: Seq<char>) -> bool {
    let d = seq!['$'] + n;
    &&& !is_comment(l)
    &&& contains(l, d)
    &&& !(contains(l, "function"@) && contains(l, "("@))
    &&& !contains(l, "$this->"@ + n)
    &&& !contains(l, "self::$"@ + n)
    &&& (contains(l, "private"@) || contains(l, "protected"@) || contains(l, "public"@)
        || contains(l, "var"@) || contains(l, "static"@) || contains(l, d + " ="@) || contains(
        l,
        d + "="@,
    ) || contains(l, d + ";"@))
}

/// Index of the first line at or after `i` that declares `n`.
pub open spec fn decl_from(ls: Seq<Seq<char>>, n: Seq<char>, i: int) -> Option<int>
    decreases ls.len() - i,
{
    if i < 0 || i >= ls.len() {
        None
    } else if declares_property(ls[i], n) {
        Some(i)
    } else {
        decl_from(ls, n, i + 1)
    }
}

/// The 1-based line of `content` that declares the property `n`.
pub open spec fn property_line_of(n: Seq<char>, content: Seq<char>) -> Option<u32> {
    match decl_from(lines_of(content), n, 0) {
        Some(k) => Some((k + 1) as u32),
        None => None,
    }
}

fn join(a: &Vec<char>, b: &Vec<char>) -> (r: Vec<char>)
    ensures
        r@ == a@ + b@,
{
    let mut r = a.clone();
    let mut i: usize = 0;
    while i < b.len()
        invariant
            0 <= i <= b.len(),
            r@ == a@ + b@.subrange(0, i as int),
        decreases b.len() - i,
    {
        r.push(b[i]);
        i = i + 1;
        assert(r@ =~= a@ + b@.subrange(0, i as int));
    }
    assert(b@.subrange(0, b.len() as int) =~= b@);
    r
}

fn comment_line(l: &Vec<char>) -> (r: bool)
    ensures
        r == is_comment(l@),
{
    let k = leading_ws_len(l);
    proof {
        crate::text::lemma_leading_ws_bound(l@);
    }
    let t = crate::text::copy_range(l, k, l.len());
    starts_with_text(&t, "//") || starts_with_text(&t, "/*") || starts_with_text(&t, "*")
}

fn declares(l: &Vec<char>, n: &Vec<char>) -> (r: bool)
    ensures
        r == declares_property(l@, n@),
{
    let dollar = chars_of("$");
    proof {
        reveal_strlit("$");
    }
    assert(dollar@ =~= seq!['$']);
    let d = join(&dollar, n);
    let this_access = join(&chars_of("$this->"), n);
    let static_access = join(&chars_of("self::$"), n);
    let assign_spaced = join(&d, &chars_of(" ="));
    let assign = join(&d, &chars_of("="));
    let ended = join(&d, &chars_of(";"));
    if comment_line(l) || !crate::text::has(l, &d) {
        return false;
    }
    if has_text(l, "function") && has_text(l, "(") {
        return false;
    }
    if crate::text::has(l, &this_access) || crate::text::has(l, &static_access) {
        return false;
    }
    has_text(l, "private") || has_text(l, "protected") || has_text(l, "public") || has_text(
        l,
        "var",
    ) || has_text(l, "static") || crate::text::has(l, &assign_spaced) || crate::text::has(
        l,
        &assign,
    ) || crate::text::has(l, &ended)
}

fn declaration_index(lines: &Vec<Vec<char>>, n: &Vec<char>) -> (r: Option<usize>)
    ensures
        r matches Some(k) ==> k < lines.len() && decl_from(views(lines@), n@, 0) == Some(k as int),
        r is None ==> decl_from(views(lines@), n@, 0) is None,
{
    let mut i: usize = 0;
    while i < lines.len()
        invariant
            0 <= i <= lines.len(),
            decl_from(views(lines@), n@, 0) == decl_from(views(lines@), n@, i as int),
        decreases lines.len() - i,
    {
        assert(views(lines@)[i as int] == lines@[i as int]@);
        if declares(&lines[i], n) {
            return Some(i);
        }
        i = i + 1;
    }
    None
}

/// The 1-based line of `content` that declares the property
/// `property_name`, if any line does.
pub fn find_property_line(property_name: &str, content: &str) -> (r: Option<u32>)
    ensures
        r == property_line_of(property_name@, content@),
{
    let n = chars_of(property_name);
    let lines = split_lines(&chars_of(content));
    match declaration_index(&lines, &n) {
        Some(k) => {
            let line: usize = k + 1;
            Some(line as u32)
        },
        None => None,
    }
}

/// End character used when the resolved line is not in the document.
pub const FAR_END: u32 = 999;

/// A 1-based line number as a 0-based one; 0 stays 0.
pub open spec fn zero_based(l: u32) -> u32 {
    if l > 0 {
        (l - 1) as u32
    } else {
        0
    }
}

/// Start and end character of the shown 1-based lines `b`..`e`: the first
/// non-blank character of line `b`, and the length of line `b` (when both
/// ends fall on one line) or of line `e`. Lines outside the document give
/// `0` and `FAR_END`.
pub open spec fn char_bounds(lines: Option<Seq<Seq<char>>>, b: u32, e: u32) -> (u32, u32) {
    match lines {
        Some(ls) => if 0 < b && b <= ls.len() {
            let st = ls[b - 1];
            let ec: int = if zero_based(b) == zero_based(e) {
                st.len() as int
            } else if 0 < e && e <= ls.len() {
                ls[e - 1].len() as int
            } else {
                FAR_END as int
            };
            (leading_ws(st) as u32, ec as u32)
        } else {
            (0, FAR_END)
        },
        None => (0, FAR_END),
    }
}

/// The declaration line of the property that `description` names.
pub open spec fn declared_line(description: Seq<char>, content: Option<Seq<char>>) -> Option<u32> {
    match (property_name_of(description), content) {
        (Some(n), Some(c)) => property_line_of(n, c),
        _ => None,
    }
}

/// The 1-based lines shown for a finding of `rule` reported on
/// `begin`..`end`.
pub open spec fn resolved_lines(
    rule: Seq<char>,
    description: Seq<char>,
    begin: u32,
    end: u32,
    content: Option<Seq<char>>,
) -> (u32, u32) {
    span_lines(rule_class(rule), begin, end, declared_line(description, content))
}

/// A 0-based editor range.
#[derive(Clone, Copy, Debug, PartialEq, Eq, Structural)]
pub struct Span {
    pub start_line: u32,
    pub start_char: u32,
    pub end_line: u32,
    pub end_char: u32,
}

pub open spec fn lines_opt(content: Option<Seq<char>>) -> Option<Seq<Seq<char>>> {
    match content {
        Some(c) => Some(lines_of(c)),
        None => None,
    }
}

pub open spec fn resolved_span(
    rule: Seq<char>,
    description: Seq<char>,
    begin: u32,
    end: u32,
    content: Option<Seq<char>>,
) -> Span {
    let (b, e) = resolved_lines(rule, description, begin, end, content);
    let (sc, ec) = char_bounds(lines_opt(content), b, e);
    Span { start_line: zero_based(b), start_char: sc, end_line: zero_based(e), end_char: ec }
}

pub open spec fn str_opt(content: Option<&str>) -> Option<Seq<char>> {
    match content {
        Some(c) => Some(c@),
        None => None,
    }
}

fn lines_range(
    begin: u32,
    end: u32,
    rule: &str,
    description: &str,
    content: Option<&str>,
    lines: Option<&Vec<Vec<char>>>,
) -> (r: (u32, u32))
    requires
        content is Some <==> lines is Some,
        lines matches Some(ls) ==> views(ls@) == lines_of(content->0@),
    ensures
        r == resolved_lines(rule@, description@, begin, end, str_opt(content)),
{
    let class = classify(rule);
    let mut prop: Option<u32> = None;
    if class == RuleClass::Property {
        let d = chars_of(description);
        match (name_in(&d), lines) {
            (Some(n), Some(ls)) => {
                match declaration_index(ls, &n) {
                    Some(k) => {
                        let line: usize = k + 1;
                        prop = Some(line as u32);
                    },
                    None => {},
                }
            },
            _ => {},
        }
    }
    collapse_span(class, begin, end, prop)
}

fn bounds(lines: Option<&Vec<Vec<char>>>, b: u32, e: u32) -> (r: (u32, u32))
    ensures
        r == char_bounds(
            match lines {
                Some(ls) => Some(views(ls@)),
                None => None,
            },
            b,
            e,
        ),
{
    match lines {
        Some(ls) => {
            if 0 < b && (b as usize) <= ls.len() {
                let st = &ls[(b - 1) as usize];
                let sc = leading_ws_len(st);
                let zb: u32 = if b > 0 { b - 1 } else { 0 };
                let ze: u32 = if e > 0 { e - 1 } else { 0 };
                let ec: usize = if zb == ze {
                    st.len()
                } else if 0 < e && (e as usize) <= ls.len() {
                    ls[(e - 1) as usize].len()
                } else {
                    FAR_END as usize
                };
                (sc as u32, ec as u32)
            } else {
                (0, FAR_END)
            }
        },
        None => (0, FAR_END),
    }
}

/// The 1-based lines to show for a finding of `rule` that the analyzer
/// reported on `begin_line`..`end_line`, with `content` the document text
/// when it is at hand.
pub fn determine_diagnostic_range(
    begin_line: u32,
    end_line: u32,
    rule: &str,
    description: &str,
    content: Option<&str>,
) -> (r: (u32, u32))
    ensures
        r == resolved_lines(rule@, description@, begin_line, end_line, str_opt(content)),
{
    match content {
        Some(c) => {
            let lines = split_lines(&chars_of(c));
            lines_range(begin_line, end_line, rule, description, content, Some(&lines))
        },
        None => lines_range(begin_line, end_line, rule, description, content, None),
    }
}

/// The 0-based editor range for a finding of `rule` reported on the 1-based
/// lines `begin_line`..`end_line`.
pub fn resolve_range(
    begin_line: u32,
    end_line: u32,
    rule: &str,
    description: &str,
    content: Option<&str>,
) -> (r: Span)
    ensures
        r == resolved_span(rule@, description@, begin_line, end_line, str_opt(content)),
{
    let (b, e, sc, ec) = match content {
        Some(c) => {
            let lines = split_lines(&chars_of(c));
            let (b, e) = lines_range(begin_line, end_line, rule, description, content, Some(&lines));
            let (sc, ec) = bounds(Some(&lines), b, e);
            (b, e, sc, ec)
        },
        None => {
            let (b, e) = lines_range(begin_line, end_line, rule, description, content, None);
            let (sc, ec) = bounds(None, b, e);
            (b, e, sc, ec)
        },
    };
    Span {
        start_line: if b > 0 { b - 1 } else { 0 },
        start_char: sc,
        end_line: if e > 0 { e - 1 } else { 0 },
        end_char: ec,
    }
}

} // verus!
