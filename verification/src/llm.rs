//! Cleanup of LLM answers: finding the JSON payload in a reply, the fallback when it
//! cannot be parsed, and shortening replies for logs.
use vstd::prelude::*;
use crate::error::AppError;
use crate::models::{ProofreadFeedback, opt_text};
use crate::text::{
    all_white_space, back_over_white_space_range, chars_of, copy_range, decimal, ends_with,
    ends_with_at, is_blank, owned, push_decimal, push_str, skip_white_space_range, starts_with,
    starts_with_at, string_from, trim, trim_end, trim_range, trim_start, trimmed,
};

verus! {

/// Index of the first `c` in `s` at or after `i`.
pub open spec fn first_index_of(s: Seq<char>, c: char, i: nat) -> Option<nat>
    decreases s.len() - i,
{
    if i >= s.len() {
        None
    } else if s[i as int] == c {
        Some(i)
    } else {
        first_index_of(s, c, i + 1)
    }
}

/// Scanning `s` from `j` with `depth` open braces: the index of the `}` that closes
/// the outermost brace, if any. Braces inside double-quoted strings (where a backslash
/// escapes the next character) do not count.
pub open spec fn object_end(s: Seq<char>, j: nat, depth: nat, in_string: bool, escape: bool) -> Option<
    nat,
>
    decreases s.len() - j,
{
    if j >= s.len() {
        None
    } else {
        let c = s[j as int];
        if in_string {
            if escape {
                object_end(s, j + 1, depth, true, false)
            } else if c == '\\' {
                object_end(s, j + 1, depth, true, true)
            } else if c == '"' {
                object_end(s, j + 1, depth, false, false)
            } else {
                object_end(s, j + 1, depth, true, false)
            }
        } else if c == '"' {
            object_end(s, j + 1, depth, true, escape)
        } else if c == '{' {
            object_end(s, j + 1, depth + 1, false, escape)
        } else if c == '}' {
            if depth <= 1 {
                Some(j)
            } else {
                object_end(s, j + 1, (depth - 1) as nat, false, escape)
            }
        } else {
            object_end(s, j + 1, depth, false, escape)
        }
    }
}

/// The first balanced `{ ... }` object of `s`, starting at its first `{`; `None` when
/// that brace is never closed or there is none.
pub open spec fn first_balanced_object(s: Seq<char>) -> Option<Seq<char>> {
    match first_index_of(s, '{', 0) {
        None => None,
        Some(i) => match object_end(s, i + 1, 1, false, false) {
            None => None,
            Some(j) => Some(s.subrange(i as int, j + 1 as int)),
        },
    }
}

proof fn lemma_object_end_bounds(s: Seq<char>, j: nat, depth: nat, in_string: bool, escape: bool)
    ensures
        object_end(s, j, depth, in_string, escape) matches Some(k) ==> j <= k < s.len() && s[k as int]
            == '}',
    decreases s.len() - j,
{
    if j < s.len() {
        let c = s[j as int];
        if in_string {
            if escape {
                lemma_object_end_bounds(s, j + 1, depth, true, false);
            } else if c == '\\' {
                lemma_object_end_bounds(s, j + 1, depth, true, true);
            } else if c == '"' {
                lemma_object_end_bounds(s, j + 1, depth, false, false);
            } else {
                lemma_object_end_bounds(s, j + 1, depth, true, false);
            }
        } else if c == '"' {
            lemma_object_end_bounds(s, j + 1, depth, true, escape);
        } else if c == '{' {
            lemma_object_end_bounds(s, j + 1, depth + 1, false, escape);
        } else if c == '}' {
            if depth > 1 {
                lemma_object_end_bounds(s, j + 1, (depth - 1) as nat, false, escape);
            }
        } else {
            lemma_object_end_bounds(s, j + 1, depth, false, escape);
        }
    }
}

/// The scan that ends at `k` reads only `s[..k + 1]`, so it ends at the same place in
/// any piece of `s` that starts at or before where the scan starts and ends at `k`.
proof fn lemma_object_end_in_piece(
    s: Seq<char>,
    i: nat,
    j: nat,
    depth: nat,
    in_string: bool,
    escape: bool,
    k: nat,
)
    requires
        i <= j,
        object_end(s, j, depth, in_string, escape) == Some(k),
    ensures
        object_end(s.subrange(i as int, k + 1 as int), (j - i) as nat, depth, in_string, escape)
            == Some((k - i) as nat),
    decreases s.len() - j,
{
    lemma_object_end_bounds(s, j, depth, in_string, escape);
    let t = s.subrange(i as int, k + 1 as int);
    assert(t[j - i] == s[j as int]);
    let c = s[j as int];
    if in_string {
        if escape {
            lemma_object_end_in_piece(s, i, j + 1, depth, true, false, k);
        } else if c == '\\' {
            lemma_object_end_in_piece(s, i, j + 1, depth, true, true, k);
        } else if c == '"' {
            lemma_object_end_in_piece(s, i, j + 1, depth, false, false, k);
        } else {
            lemma_object_end_in_piece(s, i, j + 1, depth, true, false, k);
        }
    } else if c == '"' {
        lemma_object_end_in_piece(s, i, j + 1, depth, true, escape, k);
    } else if c == '{' {
        lemma_object_end_in_piece(s, i, j + 1, depth + 1, false, escape, k);
    } else if c == '}' {
        if depth > 1 {
            lemma_object_end_in_piece(s, i, j + 1, (depth - 1) as nat, false, escape, k);
        }
    } else {
        lemma_object_end_in_piece(s, i, j + 1, depth, false, escape, k);
    }
}

proof fn lemma_first_index_of(s: Seq<char>, c: char, i: nat)
    ensures
        first_index_of(s, c, i) matches Some(k) ==> i <= k < s.len() && s[k as int] == c,
    decreases s.len() - i,
{
    if i < s.len() && s[i as int] != c {
        lemma_first_index_of(s, c, i + 1);
    }
}

/// What is extracted is a piece of the text that opens with `{` and closes with `}`.
pub proof fn lemma_balanced_object_shape(s: Seq<char>)
    ensures
        first_balanced_object(s) matches Some(o) ==> o.len() >= 2 && o[0] == '{' && o.last() == '}'
            && exists|i: int| 0 <= i && i + o.len() <= s.len() && #[trigger] s.subrange(i, i + o.len()) == o,
{
    lemma_first_index_of(s, '{', 0);
    if let Some(i) = first_index_of(s, '{', 0) {
        lemma_object_end_bounds(s, i + 1, 1, false, false);
        if let Some(j) = object_end(s, i + 1, 1, false, false) {
            let o = s.subrange(i as int, j + 1 as int);
            assert(o[0] == s[i as int]);
            assert(o.last() == s[j as int]);
            assert(s.subrange(i as int, i + o.len() as int) == o);
        }
    }
}

/// Extracting again from an extracted object gives the object back whole.
pub proof fn lemma_extract_again(s: Seq<char>)
    ensures
        first_balanced_object(s) matches Some(o) ==> first_balanced_object(o) == Some(o),
{
    lemma_first_index_of(s, '{', 0);
    if let Some(i) = first_index_of(s, '{', 0) {
        lemma_object_end_bounds(s, i + 1, 1, false, false);
        if let Some(j) = object_end(s, i + 1, 1, false, false) {
            let o = s.subrange(i as int, j + 1 as int);
            assert(o[0] == s[i as int]);
            assert(first_index_of(o, '{', 0) == Some(0nat));
            lemma_object_end_in_piece(s, i, i + 1, 1, false, false, j);
            assert(o.subrange(0, (j - i) + 1 as int) =~= o);
        }
    }
}

/// A character with no role in the object scan: not a double quote, backslash or brace.
pub open spec fn is_plain_char(c: char) -> bool {
    c != '"' && c != '\\' && c != '{' && c != '}'
}

proof fn lemma_object_end_plain_swap(
    s: Seq<char>,
    k: int,
    c: char,
    j: nat,
    depth: nat,
    in_string: bool,
    escape: bool,
)
    requires
        0 <= k < s.len(),
        is_plain_char(s[k]),
        is_plain_char(c),
    ensures
        object_end(s.update(k, c), j, depth, in_string, escape) == object_end(
            s,
            j,
            depth,
            in_string,
            escape,
        ),
    decreases s.len() - j,
{
    let t = s.update(k, c);
    if j < s.len() {
        let a = s[j as int];
        let b = t[j as int];
        if in_string {
            if escape {
                lemma_object_end_plain_swap(s, k, c, j + 1, depth, true, false);
            } else if a == '\\' {
                lemma_object_end_plain_swap(s, k, c, j + 1, depth, true, true);
            } else if a == '"' {
                lemma_object_end_plain_swap(s, k, c, j + 1, depth, false, false);
            } else {
                lemma_object_end_plain_swap(s, k, c, j + 1, depth, true, false);
            }
        } else if a == '"' {
            lemma_object_end_plain_swap(s, k, c, j + 1, depth, true, escape);
        } else if a == '{' {
            lemma_object_end_plain_swap(s, k, c, j + 1, depth + 1, false, escape);
        } else if a == '}' {
            if depth > 1 {
                lemma_object_end_plain_swap(s, k, c, j + 1, (depth - 1) as nat, false, escape);
            }
        } else {
            lemma_object_end_plain_swap(s, k, c, j + 1, depth, false, escape);
        }
        if j as int == k {
            assert(is_plain_char(a) && is_plain_char(b));
        } else {
            assert(a == b);
        }
    }
}

proof fn lemma_first_index_plain_swap(s: Seq<char>, k: int, c: char, i: nat)
    requires
        0 <= k < s.len(),
        is_plain_char(s[k]),
        is_plain_char(c),
    ensures
        first_index_of(s.update(k, c), '{', i) == first_index_of(s, '{', i),
    decreases s.len() - i,
{
    if i < s.len() {
        lemma_first_index_plain_swap(s, k, c, i + 1);
    }
}

/// Only double quotes, backslashes and braces steer the scan: putting any other
/// character in place of another such character (an apostrophe, say) changes nothing
/// about whether an object is found or where it lies.
pub proof fn lemma_plain_characters_do_not_steer(s: Seq<char>, k: int, c: char)
    requires
        0 <= k < s.len(),
        is_plain_char(s[k]),
        is_plain_char(c),
    ensures
        first_index_of(s.update(k, c), '{', 0) == first_index_of(s, '{', 0),
        (first_balanced_object(s.update(k, c)) is Some) == (first_balanced_object(s) is Some),
        first_balanced_object(s) matches Some(o) ==> (first_balanced_object(s.update(k, c)) matches Some(
            o2,
        ) && o2.len() == o.len()),
{
    lemma_first_index_plain_swap(s, k, c, 0);
    if let Some(i) = first_index_of(s, '{', 0) {
        lemma_object_end_plain_swap(s, k, c, i + 1, 1, false, false);
        lemma_object_end_bounds(s, i + 1, 1, false, false);
    }
}

/// Inside a string, a character other than a backslash or double quote neither closes
/// the string nor counts as a brace; outside, such a character is skipped.
pub proof fn lemma_plain_character_step(s: Seq<char>, j: nat, depth: nat, in_string: bool, escape: bool)
    requires
        j < s.len(),
        is_plain_char(s[j as int]),
    ensures
        object_end(s, j, depth, in_string, escape) == if in_string {
            object_end(s, j + 1, depth, true, false)
        } else {
            object_end(s, j + 1, depth, false, escape)
        },
{
}

/// Bounds of the first balanced object of `v`.
fn object_bounds(v: &[char]) -> (r: Option<(usize, usize)>)
    ensures
        r matches Some((a, b)) ==> a <= b <= v@.len() && first_balanced_object(v@) == Some(
            v@.subrange(a as int, b as int),
        ),
        r is None ==> first_balanced_object(v@) is None,
{
    let n = v.len();
    let mut i: usize = 0;
    while i < n && v[i] != '{'
        invariant
            i <= n == v@.len(),
            first_index_of(v@, '{', i as nat) == first_index_of(v@, '{', 0),
        decreases n - i,
    {
        i += 1;
    }
    if i == n {
        return None;
    }
    let start = i;
    let mut depth: usize = 1;
    let mut in_string = false;
    let mut escape = false;
    let mut j: usize = i + 1;
    while j < n
        invariant
            start < j <= n == v@.len(),
            first_index_of(v@, '{', 0) == Some(start as nat),
            1 <= depth <= j - start,
            object_end(v@, j as nat, depth as nat, in_string, escape) == object_end(
                v@,
                start as nat + 1,
                1,
                false,
                false,
            ),
        decreases n - j,
    {
        let c = v[j];
        if in_string {
            if escape {
                escape = false;
            } else if c == '\\' {
                escape = true;
            } else if c == '"' {
                in_string = false;
            }
        } else {
            if c == '"' {
                in_string = true;
            } else if c == '{' {
                depth += 1;
            } else if c == '}' {
                if depth == 1 {
                    proof {
                        lemma_object_end_bounds(v@, start as nat + 1, 1, false, false);
                    }
                    return Some((start, j + 1));
                }
                depth -= 1;
            }
        }
        j += 1;
    }
    None
}

/// The first balanced `{ ... }` object in `s`, quoted strings taken into account.
pub fn extract_first_balanced_object(s: &str) -> (r: Option<String>)
    ensures
        opt_text(r) == first_balanced_object(s@),
{
    let v = chars_of(s);
    match object_bounds(v.as_slice()) {
        Some((a, b)) => Some(string_from(v.as_slice(), a, b)),
        None => None,
    }
}

/// Opening code fence markers.
pub open spec fn fence_json() -> Seq<char> {
    seq!['`', '`', '`', 'j', 's', 'o', 'n']
}

pub open spec fn fence_json_upper() -> Seq<char> {
    seq!['`', '`', '`', 'J', 'S', 'O', 'N']
}

pub open spec fn fence() -> Seq<char> {
    seq!['`', '`', '`']
}

/// `s` without an opening code fence (` ```json `, ` ```JSON ` or ` ``` `) and the
/// white space after it.
pub open spec fn strip_opening_fence(s: Seq<char>) -> Seq<char> {
    if starts_with(s, fence_json()) {
        trim_start(s.skip(7))
    } else if starts_with(s, fence_json_upper()) {
        trim_start(s.skip(7))
    } else if starts_with(s, fence()) {
        trim_start(s.skip(3))
    } else {
        s
    }
}

/// `s` without a closing code fence and the white space before it.
pub open spec fn strip_closing_fence(s: Seq<char>) -> Seq<char> {
    if ends_with(s, fence()) {
        trim_end(s.take(s.len() - 3))
    } else {
        s
    }
}

/// The JSON payload of an LLM reply: the reply trimmed and unfenced, then its first
/// balanced object if it has one, else all of it.
pub open spec fn cleaned_json(raw: Seq<char>) -> Seq<char> {
    let s = strip_closing_fence(strip_opening_fence(trim(raw)));
    match first_balanced_object(s) {
        Some(o) => o,
        None => s,
    }
}

/// Extracts the JSON payload from an LLM reply that may wrap it in a code fence or prose.
pub fn clean_llm_json(raw: &str) -> (r: String)
    ensures
        r@ == cleaned_json(raw@),
{
    let v = chars_of(raw);
    let (lo, hi) = trim_range(v.as_slice(), 0, v.len());
    proof {
        assert(v@.subrange(0, v@.len() as int) =~= raw@);
    }
    let ghost t = v@.subrange(lo as int, hi as int);
    let fence_json_marks = ['`', '`', '`', 'j', 's', 'o', 'n'];
    let fence_json_upper_marks = ['`', '`', '`', 'J', 'S', 'O', 'N'];
    let fence_marks = ['`', '`', '`'];
    proof {
        assert(fence_json_marks@ =~= fence_json());
        assert(fence_json_upper_marks@ =~= fence_json_upper());
        assert(fence_marks@ =~= fence());
    }
    let mut lo = lo;
    if starts_with_at(v.as_slice(), lo, hi, fence_json_marks.as_slice()) {
        proof {
            assert(v@.subrange(lo + 7, hi as int) =~= t.skip(7));
        }
        lo = skip_white_space_range(v.as_slice(), lo + 7, hi);
    } else if starts_with_at(v.as_slice(), lo, hi, fence_json_upper_marks.as_slice()) {
        proof {
            assert(v@.subrange(lo + 7, hi as int) =~= t.skip(7));
        }
        lo = skip_white_space_range(v.as_slice(), lo + 7, hi);
    } else if starts_with_at(v.as_slice(), lo, hi, fence_marks.as_slice()) {
        proof {
            assert(v@.subrange(lo + 3, hi as int) =~= t.skip(3));
        }
        lo = skip_white_space_range(v.as_slice(), lo + 3, hi);
    }
    let ghost u = v@.subrange(lo as int, hi as int);
    assert(u == strip_opening_fence(t));
    let mut hi = hi;
    if ends_with_at(v.as_slice(), lo, hi, fence_marks.as_slice()) {
        proof {
            assert(v@.subrange(lo as int, hi - 3) =~= u.take(u.len() - 3));
        }
        hi = back_over_white_space_range(v.as_slice(), lo, hi - 3);
    }
    let w = copy_range(v.as_slice(), lo, hi);
    assert(w@ == strip_closing_fence(u));
    match object_bounds(w.as_slice()) {
        Some((a, b)) => string_from(w.as_slice(), a, b),
        None => {
            let r = string_from(w.as_slice(), 0, w.len());
            assert(w@.subrange(0, w@.len() as int) =~= w@);
            r
        },
    }
}

/// `s` shortened for a log line: at most `max_chars` characters of it, followed by how
/// many were left out.
pub open spec fn truncated_for_log(s: Seq<char>, max_chars: nat) -> Seq<char> {
    if s.len() <= max_chars {
        s
    } else {
        s.take(max_chars as int) + "…[+"@ + decimal((s.len() - max_chars) as nat)
            + " chars omitted]"@
    }
}

/// Shortens `s` to `max_chars` characters for logging, noting how many were omitted.
pub fn truncate_for_log(s: &str, max_chars: usize) -> (r: String)
    ensures
        r@ == truncated_for_log(s@, max_chars as nat),
{
    let v = chars_of(s);
    if v.len() <= max_chars {
        return owned(s);
    }
    let mut r = string_from(v.as_slice(), 0, max_chars);
    let ghost head = r@;
    push_str(&mut r, "…[+");
    push_decimal(&mut r, v.len() - max_chars);
    push_str(&mut r, " chars omitted]");
    assert(head == s@.take(max_chars as int));
    r
}

/// The feedback to show for a proofread reply: the parsed feedback when the reply
/// parsed, else the whole reply, trimmed, as the feedback text.
pub fn feedback_or_fallback(raw: &str, parsed: Option<ProofreadFeedback>) -> (f: ProofreadFeedback)
    ensures
        parsed matches Some(p) ==> f == p,
        parsed is None ==> f.feedback@ == trim(raw@) && f.key_expression@.len() == 0
            && f.example@.len() == 0,
{
    match parsed {
        Some(p) => p,
        None => ProofreadFeedback {
            feedback: trimmed(raw),
            key_expression: String::new(),
            example: String::new(),
        },
    }
}

/// The attempt to proofread, trimmed; blank attempts are refused.
pub fn proofread_attempt_text(user_attempt: &str) -> (r: Result<String, AppError>)
    ensures
        r is Ok <==> !all_white_space(user_attempt@),
        r matches Ok(a) ==> a@ == trim(user_attempt@),
        r matches Err(e) ==> (e matches AppError::Validation(m) && m@
            == "Cannot proofread an empty attempt"@),
{
    if is_blank(user_attempt) {
        return Err(AppError::Validation(owned("Cannot proofread an empty attempt")));
    }
    Ok(trimmed(user_attempt))
}

} // verus!
