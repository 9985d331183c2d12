//! The analyzer's JSON report: a JSON tree of the library's own, and the
//! findings read from it.
use vstd::prelude::*;
use crate::report::{
    decode_violation, decoded_violation, violation_views, RawViolation, RecordView, Violation,
    ViolationView,
};
use crate::text::{blank, chars_of, is_blank};

verus! {

#[verifier::external_type_specification]
#[verifier::external_body]
pub struct ExValue(serde_json::Value);

/// A JSON value. A number is kept as the `u64` it denotes, if it denotes
/// one; object members keep their order.
pub enum Json {
    Null,
    Bool(bool),
    Number(Option<u64>),
    Text(String),
    Array(Vec<Json>),
    Object(Vec<(String, Json)>),
}

/// A JSON value as a value.
pub enum JsonView {
    Null,
    Bool(bool),
    Number(Option<u64>),
    Text(Seq<char>),
    Array(Seq<JsonView>),
    Object(Seq<(Seq<char>, JsonView)>),
}

pub open spec fn jview(j: Json) -> JsonView
    decreases j,
{
    match j {
        Json::Null => JsonView::Null,
        Json::Bool(b) => JsonView::Bool(b),
        Json::Number(n) => JsonView::Number(n),
        Json::Text(s) => JsonView::Text(s@),
        Json::Array(a) => JsonView::Array(
            Seq::new(
                a.len() as nat,
                |i: int|
                    if 0 <= i < a.len() {
                        jview(a[i])
                    } else {
                        JsonView::Null
                    },
            ),
        ),
        Json::Object(m) => JsonView::Object(
            Seq::new(
                m.len() as nat,
                |i: int|
                    if 0 <= i < m.len() {
                        (m[i].0@, jview(m[i].1))
                    } else {
                        (seq![], JsonView::Null)
                    },
            ),
        ),
    }
}

/// The JSON value that `serde_json::from_str` reads from `s`, if any.
pub uninterp spec fn json_of(s: Seq<char>) -> Option<JsonView>;

/// Relies on the variants of `serde_json::Value` and `Number::as_u64`: the
/// same tree, member for member.
#[verifier::external_body]
fn json_tree(v: &serde_json::Value) -> Json {
    match v {
        serde_json::Value::Null => Json::Null,
        serde_json::Value::Bool(b) => Json::Bool(*b),
        serde_json::Value::Number(n) => Json::Number(n.as_u64()),
        serde_json::Value::String(s) => Json::Text(s.clone()),
        serde_json::Value::Array(a) => Json::Array(a.iter().map(json_tree).collect()),
        serde_json::Value::Object(m) => Json::Object(m.iter().map(|(k, x)| (k.clone(), json_tree(x))).collect()),
    }
}

/// Relies on `serde_json::from_str` into a `Value`: the JSON value the text
/// holds, a function of the text alone.
#[verifier::external_body]
fn parse_json(s: &str) -> (r: Option<Json>)
    ensures
        match r {
            Some(j) => json_of(s@) == Some(jview(j)),
            None => json_of(s@) is None,
        },
{
    serde_json::from_str::<serde_json::Value>(s).ok().map(|v| json_tree(&v))
}

/// The value of the first member named `key` of an object.
pub open spec fn member_of(ms: Seq<(Seq<char>, JsonView)>, key: Seq<char>) -> Option<JsonView>
    decreases ms.len(),
{
    if ms.len() == 0 {
        None
    } else if ms[0].0 == key {
        Some(ms[0].1)
    } else {
        member_of(ms.drop_first(), key)
    }
}

/// The member `key` of `v`, when `v` is an object that has one.
pub open spec fn member(v: JsonView, key: Seq<char>) -> Option<JsonView> {
    match v {
        JsonView::Object(ms) => member_of(ms, key),
        _ => None,
    }
}

pub open spec fn as_u64(o: Option<JsonView>) -> Option<u64> {
    match o {
        Some(JsonView::Number(n)) => n,
        _ => None,
    }
}

pub open spec fn as_text(o: Option<JsonView>) -> Option<Seq<char>> {
    match o {
        Some(JsonView::Text(t)) => Some(t),
        _ => None,
    }
}

/// The fields of a finding record.
pub open spec fn record_of(r: JsonView) -> RecordView {
    RecordView {
        begin_line: as_u64(member(r, "beginLine"@)),
        end_line: as_u64(member(r, "endLine"@)),
        description: as_text(member(r, "description"@)),
        has_rule: member(r, "rule"@) is Some,
        rule: as_text(member(r, "rule"@)),
        rule_set: as_text(member(r, "ruleSet"@)),
        priority: as_u64(member(r, "priority"@)),
        class: as_text(member(r, "class"@)),
        method: as_text(member(r, "method"@)),
        function: as_text(member(r, "function"@)),
    }
}

/// The records of a file entry's `violations` array.
pub open spec fn file_records(f: JsonView) -> Option<Seq<RecordView>> {
    match member(f, "violations"@) {
        Some(JsonView::Array(rs)) => Some(Seq::new(rs.len(), |i: int| record_of(rs[i]))),
        _ => None,
    }
}

/// The records of each entry of the report's `files` array.
pub open spec fn report_tree(v: JsonView) -> Option<Seq<Option<Seq<RecordView>>>> {
    match member(v, "files"@) {
        Some(JsonView::Array(fs)) => Some(Seq::new(fs.len(), |i: int| file_records(fs[i]))),
        _ => None,
    }
}

/// The records of each entry of the `files` array of the JSON text `s`;
/// none when `s` is not JSON with a `files` array, and none for an entry
/// without a `violations` array.
pub open spec fn report_files(s: Seq<char>) -> Option<Seq<Option<Seq<RecordView>>>> {
    match json_of(s) {
        Some(v) => report_tree(v),
        None => None,
    }
}

pub open spec fn record_views(v: Seq<RawViolation>) -> Seq<RecordView> {
    Seq::new(v.len(), |i: int| v[i]@)
}

pub open spec fn file_views(fs: Seq<Option<Vec<RawViolation>>>) -> Seq<Option<Seq<RecordView>>> {
    Seq::new(
        fs.len(),
        |i: int|
            match fs[i] {
                Some(v) => Some(record_views(v@)),
                None => None,
            },
    )
}

pub open spec fn opt_jview(o: Option<&Json>) -> Option<JsonView> {
    match o {
        Some(j) => Some(jview(*j)),
        None => None,
    }
}

/// The member `key` of `j`, when `j` is an object that has one.
fn member_in<'a>(j: &'a Json, key: &str) -> (r: Option<&'a Json>)
    ensures
        opt_jview(r) == member(jview(*j), key@),
{
    match j {
        Json::Object(ms) => {
            let ghost mv = match jview(*j) {
                JsonView::Object(x) => x,
                _ => seq![],
            };
            assert(mv.skip(0) =~= mv);
            let mut i: usize = 0;
            while i < ms.len()
                invariant
                    0 <= i <= ms.len(),
                    mv.len() == ms.len(),
                    jview(*j) == JsonView::Object(mv),
                    forall|k: int| 0 <= k < ms.len() ==> #[trigger] mv[k] == (ms@[k].0@, jview(ms@[k].1)),
                    member_of(mv, key@) == member_of(mv.skip(i as int), key@),
                decreases ms.len() - i,
            {
                assert(mv.skip(i as int)[0] == mv[i as int]);
                assert(mv.skip(i as int).drop_first() =~= mv.skip(i + 1));
                if crate::text::same(&chars_of(ms[i].0.as_str()), &chars_of(key)) {
                    assert(mv.skip(i as int)[0].0 == key@);
                    return Some(&ms[i].1);
                }
                i = i + 1;
            }
            None
        },
        _ => None,
    }
}

fn u64_in(j: &Json, key: &str) -> (r: Option<u64>)
    ensures
        r == as_u64(member(jview(*j), key@)),
{
    match member_in(j, key) {
        Some(Json::Number(n)) => *n,
        _ => None,
    }
}

fn text_in(j: &Json, key: &str) -> (r: Option<String>)
    ensures
        crate::report::opt_view(r) == as_text(member(jview(*j), key@)),
{
    match member_in(j, key) {
        Some(Json::Text(t)) => Some(t.clone()),
        _ => None,
    }
}

/// The fields of one finding record.
fn record_in(j: &Json) -> (r: RawViolation)
    ensures
        r@ == record_of(jview(*j)),
{
    RawViolation {
        begin_line: u64_in(j, "beginLine"),
        end_line: u64_in(j, "endLine"),
        description: text_in(j, "description"),
        has_rule: member_in(j, "rule").is_some(),
        rule: text_in(j, "rule"),
        rule_set: text_in(j, "ruleSet"),
        priority: u64_in(j, "priority"),
        class: text_in(j, "class"),
        method: text_in(j, "method"),
        function: text_in(j, "function"),
    }
}

/// The records of a file entry's `violations` array.
fn records_in(f: &Json) -> (r: Option<Vec<RawViolation>>)
    ensures
        match r {
            Some(v) => file_records(jview(*f)) == Some(record_views(v@)),
            None => file_records(jview(*f)) is None,
        },
{
    match member_in(f, "violations") {
        Some(Json::Array(rs)) => {
            let ghost want = Seq::new(rs.len() as nat, |k: int| record_of(jview(rs@[k])));
            let mut out: Vec<RawViolation> = Vec::new();
            let mut i: usize = 0;
            while i < rs.len()
                invariant
                    0 <= i <= rs.len(),
                    want == Seq::new(rs.len() as nat, |k: int| record_of(jview(rs@[k]))),
                    record_views(out@) == want.take(i as int),
                decreases rs.len() - i,
            {
                let ghost prev = record_views(out@);
                let r = record_in(&rs[i]);
                let ghost rv = r@;
                out.push(r);
                assert(record_views(out@) =~= prev.push(rv));
                assert(want.take(i + 1) =~= want.take(i as int).push(want[i as int]));
                i = i + 1;
            }
            assert(want.take(rs.len() as int) =~= want);
            proof {
                let m = member(jview(*f), "violations"@);
                assert(m == Some(jview(Json::Array(*rs))));
                if let Some(JsonView::Array(x)) = m {
                    assert(Seq::new(x.len(), |k: int| record_of(x[k])) =~= want);
                }
            }
            Some(out)
        },
        _ => None,
    }
}

/// The records of each entry of the report's `files` array.
fn files_in(root: &Json) -> (r: Option<Vec<Option<Vec<RawViolation>>>>)
    ensures
        match r {
            Some(fs) => report_tree(jview(*root)) == Some(file_views(fs@)),
            None => report_tree(jview(*root)) is None,
        },
{
    match member_in(root, "files") {
        Some(Json::Array(fs)) => {
            let ghost want = Seq::new(fs.len() as nat, |k: int| file_records(jview(fs@[k])));
            let mut out: Vec<Option<Vec<RawViolation>>> = Vec::new();
            let mut i: usize = 0;
            while i < fs.len()
                invariant
                    0 <= i <= fs.len(),
                    want == Seq::new(fs.len() as nat, |k: int| file_records(jview(fs@[k]))),
                    file_views(out@) == want.take(i as int),
                decreases fs.len() - i,
            {
                let ghost prev = file_views(out@);
                let r = records_in(&fs[i]);
                let ghost rv = file_views(seq![r])[0];
                out.push(r);
                assert(file_views(out@) =~= prev.push(rv));
                assert(want.take(i + 1) =~= want.take(i as int).push(want[i as int]));
                i = i + 1;
            }
            assert(want.take(fs.len() as int) =~= want);
            proof {
                let m = member(jview(*root), "files"@);
                assert(m == Some(jview(Json::Array(*fs))));
                if let Some(JsonView::Array(x)) = m {
                    assert(Seq::new(x.len(), |k: int| file_records(x[k])) =~= want);
                }
            }
            Some(out)
        },
        _ => None,
    }
}

/// The findings of the records `rs`, in order, without the records that
/// make none.
pub open spec fn decoded_all(rs: Seq<RecordView>) -> Seq<ViolationView>
    decreases rs.len(),
{
    if rs.len() == 0 {
        seq![]
    } else {
        let rest = decoded_all(rs.drop_last());
        match decoded_violation(rs.last()) {
            Some(v) => rest.push(v),
            None => rest,
        }
    }
}

/// The findings of every file entry, in file order and then record order.
/// Entries are kept whatever file path they name, and nothing is merged.
pub open spec fn flat_decoded(fs: Seq<Option<Seq<RecordView>>>) -> Seq<ViolationView>
    decreases fs.len(),
{
    if fs.len() == 0 {
        seq![]
    } else {
        flat_decoded(fs.drop_last()) + match fs.last() {
            Some(rs) => decoded_all(rs),
            None => seq![],
        }
    }
}

/// The findings of the analyzer's report `s`: none for blank text or text
/// without a `files` array.
pub open spec fn parsed_report(s: Seq<char>) -> Seq<ViolationView> {
    if is_blank(s) {
        seq![]
    } else {
        match report_files(s) {
            Some(fs) => flat_decoded(fs),
            None => seq![],
        }
    }
}

/// The findings of the records of each file entry, in order.
pub fn violations_of(files: &Vec<Option<Vec<RawViolation>>>) -> (r: Vec<Violation>)
    ensures
        violation_views(r@) == flat_decoded(file_views(files@)),
{
    let ghost fv = file_views(files@);
    let mut out: Vec<Violation> = Vec::new();
    let mut i: usize = 0;
    assert(violation_views(out@) =~= flat_decoded(fv.take(0)));
    while i < files.len()
        invariant
            0 <= i <= files.len(),
            fv == file_views(files@),
            violation_views(out@) == flat_decoded(fv.take(i as int)),
        decreases files.len() - i,
    {
        assert(fv.take(i + 1).drop_last() =~= fv.take(i as int));
        assert(fv.take(i + 1).last() == fv[i as int]);
        match &files[i] {
            Some(records) => {
                let ghost rv = record_views(records@);
                assert(fv[i as int] == Some(rv));
                let mut j: usize = 0;
                assert(flat_decoded(fv.take(i as int)) + decoded_all(rv.take(0)) =~= flat_decoded(
                    fv.take(i as int),
                ));
                while j < records.len()
                    invariant
                        0 <= j <= records.len(),
                        rv == record_views(records@),
                        violation_views(out@) == flat_decoded(fv.take(i as int)) + decoded_all(
                            rv.take(j as int),
                        ),
                    decreases records.len() - j,
                {
                    assert(rv.take(j + 1).drop_last() =~= rv.take(j as int));
                    assert(rv.take(j + 1).last() == records@[j as int]@);
                    match decode_violation(&records[j]) {
                        Some(v) => {
                            let ghost prev = violation_views(out@);
                            let ghost vv = v@;
                            out.push(v);
                            assert(violation_views(out@) =~= prev.push(vv));
                            assert(violation_views(out@) =~= flat_decoded(fv.take(i as int))
                                + decoded_all(rv.take(j + 1)));
                        },
                        None => {},
                    }
                    j = j + 1;
                }
                assert(rv.take(records.len() as int) =~= rv);
            },
            None => {
                assert(flat_decoded(fv.take(i + 1)) =~= flat_decoded(fv.take(i as int)));
            },
        }
        i = i + 1;
    }
    assert(fv.take(files.len() as int) =~= fv);
    out
}

/// The findings of the analyzer's JSON report: the records of every file
/// entry in file order and then record order, without those that lack a
/// begin line, a description or a rule. Blank or undecodable text, or a
/// report without a `files` array, holds none. Entries are kept whatever
/// file path they name: each run analyzes a single temporary file, so
/// every entry is about it.
pub fn parse_phpmd_output(json_output: &str) -> (r: Vec<Violation>)
    ensures
        violation_views(r@) == parsed_report(json_output@),
{
    if blank(&chars_of(json_output)) {
        let out: Vec<Violation> = Vec::new();
        assert(violation_views(out@) =~= seq![]);
        return out;
    }
    let files = match parse_json(json_output) {
        Some(j) => files_in(&j),
        None => None,
    };
    match files {
        Some(files) => violations_of(&files),
        None => {
            let out: Vec<Violation> = Vec::new();
            assert(violation_views(out@) =~= seq![]);
            out
        },
    }
}

} // verus!
