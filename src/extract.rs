//! Locating the JSON object inside the analyzer's standard output, which
//! may carry log lines before and after it.
use vstd::prelude::*;
use crate::text::{chars_of, copy_range, first_from, first_index, lemma_first_from_range, string_of};

verus! {

/// The scan that looks for the brace closing the object opened before
/// `i`: `depth` open braces, inside a string literal or not, the previous
/// character an escaping backslash or not. Braces inside string literals
/// do not count. The result is the index of the closing brace.
pub open spec fn close_from(s: Seq<char>, i: int, depth: int, in_str: bool, esc: bool) -> Option<int>
    decreases s.len() - i,
{
    if i < 0 || i >= s.len() {
        None
    } else if esc {
        close_from(s, i + 1, depth, in_str, false)
    } else if s[i] == '\\' && in_str {
        close_from(s, i + 1, depth, in_str, true)
    } else {
        let in2 = if s[i] == '"' { !in_str } else { in_str };
        if !in2 && s[i] == '{' {
            close_from(s, i + 1, depth + 1, in2, false)
        } else if !in2 && s[i] == '}' {
            if depth - 1 == 0 {
                Some(i)
            } else {
                close_from(s, i + 1, depth - 1, in2, false)
            }
        } else {
            close_from(s, i + 1, depth, in2, false)
        }
    }
}

/// The balanced object that starts at the first `{` of `s`; `s` itself
/// when there is no `{` or the object never closes.
pub open spec fn payload_of(s: Seq<char>) -> Seq<char> {
    match first_from(s, '{', 0) {
        Some(start) => match close_from(s, start, 0, false, false) {
            Some(end) => s.subrange(start, end + 1),
            None => s,
        },
        None => s,
    }
}

proof fn lemma_close_from_range(s: Seq<char>, i: int, depth: int, in_str: bool, esc: bool)
    requires
        0 <= i,
    ensures
        close_from(s, i, depth, in_str, esc) matches Some(k) ==> i <= k < s.len(),
    decreases s.len() - i,
{
    if i < s.len() {
        lemma_close_from_range(s, i + 1, depth, in_str, false);
        lemma_close_from_range(s, i + 1, depth, in_str, true);
        lemma_close_from_range(s, i + 1, depth, !in_str, false);
        lemma_close_from_range(s, i + 1, depth + 1, in_str, false);
        lemma_close_from_range(s, i + 1, depth + 1, !in_str, false);
        lemma_close_from_range(s, i + 1, depth - 1, in_str, false);
        lemma_close_from_range(s, i + 1, depth - 1, !in_str, false);
    }
}

/// Index of the brace that closes the object opened at `start`.
fn closing_index(v: &Vec<char>, start: usize) -> (r: Option<usize>)
    requires
        start < v.len(),
        v@[start as int] == '{',
    ensures
        r matches Some(k) ==> close_from(v@, start as int, 0, false, false) == Some(k as int),
        r is None ==> close_from(v@, start as int, 0, false, false) is None,
{
    let mut depth: usize = 0;
    let mut in_str = false;
    let mut esc = false;
    let mut i: usize = start;
    while i < v.len()
        invariant
            start <= i <= v.len(),
            v@[start as int] == '{',
            depth <= i - start,
            i == start ==> depth == 0 && !in_str && !esc,
            i > start ==> depth >= 1,
            close_from(v@, start as int, 0, false, false) == close_from(
                v@,
                i as int,
                depth as int,
                in_str,
                esc,
            ),
        decreases v.len() - i,
    {
        let c = v[i];
        if esc {
            esc = false;
        } else if c == '\\' && in_str {
            esc = true;
        } else {
            if c == '"' {
                in_str = !in_str;
            }
            if !in_str && c == '{' {
                depth = depth + 1;
            } else if !in_str && c == '}' {
                if depth == 1 {
                    return Some(i);
                }
                depth = depth - 1;
            }
        }
        i = i + 1;
    }
    None
}

/// The JSON object in the analyzer's raw output: from the first `{` to the
/// brace that closes it, braces inside string literals not counted. Output
/// with no balanced object comes back unchanged.
pub fn extract_json_from_output(output: &str) -> (r: String)
    ensures
        r@ == payload_of(output@),
{
    let v = chars_of(output);
    match first_index(&v, '{') {
        Some(start) => {
            proof {
                lemma_first_from_range(v@, '{', 0);
            }
            match closing_index(&v, start) {
                Some(end) => {
                    proof {
                        lemma_close_from_range(v@, start as int, 0, false, false);
                    }
                    let part = copy_range(&v, start, end + 1);
                    string_of(&part)
                },
                None => string_of(&v),
            }
        },
        None => string_of(&v),
    }
}

} // verus!
