//! Character-level text helpers with their specifications.
//!
//! Strings are handled as sequences of Unicode scalar values (`char`s); the view of a
//! `str` or `String` is its `Seq<char>`.
use vstd::prelude::*;

verus! {

/// `String::push` appends one character.
pub assume_specification[ String::push ](s: &mut String, ch: char)
    ensures
        final(s)@ == old(s)@.push(ch),
;

/// The Unicode `White_Space` property (PropList.txt), which is what `char::is_whitespace`
/// and `str::trim` go by.
pub open spec fn is_white_space(c: char) -> bool {
    let u = c as u32;
    ||| 0x09 <= u && u <= 0x0D
    ||| u == 0x20
    ||| u == 0x85
    ||| u == 0xA0
    ||| u == 0x1680
    ||| 0x2000 <= u && u <= 0x200A
    ||| u == 0x2028
    ||| u == 0x2029
    ||| u == 0x202F
    ||| u == 0x205F
    ||| u == 0x3000
}

/// Index of the first non-white-space character at or after `i` (or the length).
pub open spec fn skip_white_space(s: Seq<char>, i: nat) -> nat
    decreases s.len() - i,
{
    if i < s.len() && is_white_space(s[i as int]) {
        skip_white_space(s, i + 1)
    } else {
        i
    }
}

/// End of `s.take(j)` once trailing white space is dropped.
pub open spec fn back_over_white_space(s: Seq<char>, j: nat) -> nat
    decreases j,
{
    if 0 < j && j <= s.len() && is_white_space(s[j - 1]) {
        back_over_white_space(s, (j - 1) as nat)
    } else {
        j
    }
}

/// `s` without its leading white space.
pub open spec fn trim_start(s: Seq<char>) -> Seq<char> {
    s.skip(skip_white_space(s, 0) as int)
}

/// `s` without its trailing white space.
pub open spec fn trim_end(s: Seq<char>) -> Seq<char> {
    s.take(back_over_white_space(s, s.len()) as int)
}

/// `s` without leading and trailing white space, as `str::trim` gives it.
pub open spec fn trim(s: Seq<char>) -> Seq<char> {
    trim_end(trim_start(s))
}

/// Every character of `s` is white space.
pub open spec fn all_white_space(s: Seq<char>) -> bool {
    forall|i: int| 0 <= i < s.len() ==> is_white_space(#[trigger] s[i])
}

/// `s` neither starts nor ends with white space.
pub open spec fn is_trimmed(s: Seq<char>) -> bool {
    s.len() > 0 ==> !is_white_space(s[0]) && !is_white_space(s[s.len() - 1])
}

pub proof fn lemma_skip_white_space(s: Seq<char>, i: nat)
    requires
        i <= s.len(),
    ensures
        i <= skip_white_space(s, i) <= s.len(),
        forall|k: int| i <= k < skip_white_space(s, i) ==> is_white_space(#[trigger] s[k]),
        skip_white_space(s, i) < s.len() ==> !is_white_space(s[skip_white_space(s, i) as int]),
    decreases s.len() - i,
{
    if i < s.len() && is_white_space(s[i as int]) {
        lemma_skip_white_space(s, i + 1);
    }
}

pub proof fn lemma_back_over_white_space(s: Seq<char>, j: nat)
    requires
        j <= s.len(),
    ensures
        back_over_white_space(s, j) <= j,
        forall|k: int| back_over_white_space(s, j) <= k < j ==> is_white_space(#[trigger] s[k]),
        back_over_white_space(s, j) > 0 ==> !is_white_space(s[back_over_white_space(s, j) - 1]),
    decreases j,
{
    if 0 < j && is_white_space(s[j - 1]) {
        lemma_back_over_white_space(s, (j - 1) as nat);
    }
}

/// What `trim` keeps: a contiguous run `s[a..b]` whose ends are not white space and
/// outside of which everything is white space.
pub proof fn lemma_trim_bounds(s: Seq<char>)
    ensures
        ({
            let a = skip_white_space(s, 0) as int;
            let t = s.skip(a);
            let b = a + back_over_white_space(t, t.len()) as int;
            &&& 0 <= a <= b <= s.len()
            &&& trim(s) == s.subrange(a, b)
            &&& forall|k: int| 0 <= k < a ==> is_white_space(#[trigger] s[k])
            &&& forall|k: int| b <= k < s.len() ==> is_white_space(#[trigger] s[k])
            &&& a < b ==> !is_white_space(s[a]) && !is_white_space(s[b - 1])
            &&& a == b ==> b == s.len()
        }),
{
    let a = skip_white_space(s, 0);
    lemma_skip_white_space(s, 0);
    let t = s.skip(a as int);
    lemma_back_over_white_space(t, t.len());
    let e = back_over_white_space(t, t.len());
    assert forall|k: int| a + e <= k < s.len() implies is_white_space(#[trigger] s[k]) by {
        assert(s[k] == t[k - a]);
    }
    if e > 0 {
        assert(s[a + e - 1] == t[e - 1]);
    }
    assert(trim(s) =~= s.subrange(a as int, (a + e) as int));
}

/// `trim` is empty exactly when all of `s` is white space; otherwise it is trimmed.
pub proof fn lemma_trim_facts(s: Seq<char>)
    ensures
        trim(s).len() == 0 <==> all_white_space(s),
        is_trimmed(trim(s)),
        trim(s).len() <= s.len(),
{
    lemma_trim_bounds(s);
    let a = skip_white_space(s, 0) as int;
    let t = s.skip(a);
    let b = a + back_over_white_space(t, t.len()) as int;
    if trim(s).len() == 0 {
        assert forall|i: int| 0 <= i < s.len() implies is_white_space(#[trigger] s[i]) by {
            if i >= b {
            } else {
                assert(i < a);
            }
        }
    }
    if all_white_space(s) && trim(s).len() > 0 {
        assert(is_white_space(s[a]));
    }
}

/// A trimmed text is its own trim.
pub proof fn lemma_trim_of_trimmed(s: Seq<char>)
    requires
        is_trimmed(s),
    ensures
        trim(s) == s,
{
    lemma_trim_bounds(s);
    let a = skip_white_space(s, 0) as int;
    let t = s.skip(a);
    let b = a + back_over_white_space(t, t.len()) as int;
    if s.len() > 0 {
        assert(a == 0) by {
            if a > 0 {
                assert(is_white_space(s[0]));
            }
        }
        assert(b == s.len()) by {
            if b < s.len() {
                assert(is_white_space(s[s.len() - 1]));
            }
        }
    }
    assert(trim(s) =~= s);
}

/// Trimming twice is trimming once.
pub proof fn lemma_trim_idempotent(s: Seq<char>)
    ensures
        trim(trim(s)) == trim(s),
{
    lemma_trim_facts(s);
    lemma_trim_of_trimmed(trim(s));
}

/// A text made of white space, then a trimmed non-empty core, then white space again,
/// trims to that core.
pub proof fn lemma_trim_of_padded_core(w1: Seq<char>, m: Seq<char>, w2: Seq<char>)
    requires
        all_white_space(w1),
        all_white_space(w2),
        m.len() > 0,
        is_trimmed(m),
    ensures
        trim(w1 + m + w2) == m,
{
    let s = w1 + m + w2;
    lemma_trim_bounds(s);
    let a = skip_white_space(s, 0) as int;
    let t = s.skip(a);
    let b = a + back_over_white_space(t, t.len()) as int;
    let p = w1.len() as int;
    let q = p + m.len() as int;
    assert(s[p] == m[0]);
    assert(s[q - 1] == m[m.len() - 1]);
    assert(a == p) by {
        if a > p {
            assert(is_white_space(s[p]));
        } else if a < p {
            assert(is_white_space(s[a]));
            if a == b {
                assert(is_white_space(s[p]));
            }
        }
    }
    assert(b == q) by {
        if b < q {
            assert(is_white_space(s[q - 1]));
        } else if b > q {
            assert(is_white_space(s[b - 1]));
        }
    }
    assert(s.subrange(a, b) =~= m);
}

/// White space added around a text does not change its trim.
pub proof fn lemma_trim_padded(k: Seq<char>, pad_front: Seq<char>, pad_back: Seq<char>)
    requires
        all_white_space(pad_front),
        all_white_space(pad_back),
    ensures
        trim(pad_front + k + pad_back) == trim(k),
{
    let s = pad_front + k + pad_back;
    lemma_trim_bounds(k);
    lemma_trim_facts(k);
    let a = skip_white_space(k, 0) as int;
    let t = k.skip(a);
    let b = a + back_over_white_space(t, t.len()) as int;
    if trim(k).len() == 0 {
        assert(all_white_space(s)) by {
            assert forall|i: int| 0 <= i < s.len() implies is_white_space(#[trigger] s[i]) by {
                if i < pad_front.len() {
                    assert(s[i] == pad_front[i]);
                } else if i < pad_front.len() + k.len() {
                    assert(s[i] == k[i - pad_front.len()]);
                } else {
                    assert(s[i] == pad_back[i - pad_front.len() - k.len()]);
                }
            }
        }
        lemma_trim_facts(s);
    } else {
        let w1 = pad_front + k.subrange(0, a);
        let w2 = k.subrange(b, k.len() as int) + pad_back;
        assert(all_white_space(w1)) by {
            assert forall|i: int| 0 <= i < w1.len() implies is_white_space(#[trigger] w1[i]) by {
                if i < pad_front.len() {
                    assert(w1[i] == pad_front[i]);
                } else {
                    assert(w1[i] == k[i - pad_front.len()]);
                }
            }
        }
        assert(all_white_space(w2)) by {
            assert forall|i: int| 0 <= i < w2.len() implies is_white_space(#[trigger] w2[i]) by {
                if i < k.len() - b {
                    assert(w2[i] == k[b + i]);
                } else {
                    assert(w2[i] == pad_back[i - (k.len() - b)]);
                }
            }
        }
        assert(s =~= w1 + trim(k) + w2);
        lemma_trim_of_padded_core(w1, trim(k), w2);
    }
}

/// Whether `c` is white space in the sense of `is_white_space`.
pub fn char_is_white_space(c: char) -> (b: bool)
    ensures
        b == is_white_space(c),
{
    let u = c as u32;
    (0x09 <= u && u <= 0x0D) || u == 0x20 || u == 0x85 || u == 0xA0 || u == 0x1680
        || (0x2000 <= u && u <= 0x200A) || u == 0x2028 || u == 0x2029 || u == 0x202F
        || u == 0x205F || u == 0x3000
}

/// The characters of `s`, in order.
pub fn chars_of(s: &str) -> (v: Vec<char>)
    ensures
        v@ == s@,
{
    let mut v: Vec<char> = Vec::new();
    for c in it: s.chars()
        invariant
            v@ == it.seq().take(it.index() as int),
            it.seq() == s@,
    {
        v.push(c);
    }
    v
}

/// A new string holding `v[lo..hi]`.
pub fn string_from(v: &[char], lo: usize, hi: usize) -> (s: String)
    requires
        lo <= hi <= v@.len(),
    ensures
        s@ == v@.subrange(lo as int, hi as int),
{
    let mut s = String::new();
    let mut i = lo;
    while i < hi
        invariant
            lo <= i <= hi <= v@.len(),
            s@ == v@.subrange(lo as int, i as int),
        decreases hi - i,
    {
        s.push(v[i]);
        i += 1;
        assert(s@ =~= v@.subrange(lo as int, i as int));
    }
    s
}

/// Appends all of `v` to `s`.
pub fn push_chars(s: &mut String, v: &[char])
    ensures
        final(s)@ == old(s)@ + v@,
{
    let mut i: usize = 0;
    while i < v.len()
        invariant
            i <= v@.len(),
            s@ == old(s)@ + v@.take(i as int),
        decreases v.len() - i,
    {
        s.push(v[i]);
        i += 1;
        assert(s@ =~= old(s)@ + v@.take(i as int));
    }
    assert(v@.take(v@.len() as int) =~= v@);
}

/// Appends all of `t` to `s`.
pub fn push_str(s: &mut String, t: &str)
    ensures
        final(s)@ == old(s)@ + t@,
{
    let v = chars_of(t);
    push_chars(s, v.as_slice());
}

/// Bounds `(a, b)` with `v[a..b] == trim(v[lo..hi])`.
pub fn trim_range(v: &[char], lo: usize, hi: usize) -> (r: (usize, usize))
    requires
        lo <= hi <= v@.len(),
    ensures
        lo <= r.0 <= r.1 <= hi,
        v@.subrange(r.0 as int, r.1 as int) == trim(v@.subrange(lo as int, hi as int)),
{
    let ghost w = v@.subrange(lo as int, hi as int);
    let mut a: usize = lo;
    while a < hi && char_is_white_space(v[a])
        invariant
            lo <= a <= hi <= v@.len(),
            w == v@.subrange(lo as int, hi as int),
            skip_white_space(w, (a - lo) as nat) == skip_white_space(w, 0),
        decreases hi - a,
    {
        assert(w[a - lo] == v@[a as int]);
        a += 1;
    }
    proof {
        if a < hi {
            assert(w[a - lo] == v@[a as int]);
        }
    }
    let ghost t = w.skip((a - lo) as int);
    let mut b: usize = hi;
    while b > a && char_is_white_space(v[b - 1])
        invariant
            lo <= a <= b <= hi <= v@.len(),
            w == v@.subrange(lo as int, hi as int),
            t == w.skip((a - lo) as int),
            back_over_white_space(t, (b - a) as nat) == back_over_white_space(t, t.len()),
        decreases b,
    {
        assert(t[b - a - 1] == v@[b - 1]);
        b -= 1;
    }
    proof {
        if b > a {
            assert(t[b - a - 1] == v@[b - 1]);
        }
        assert(v@.subrange(a as int, b as int) =~= trim(w));
    }
    (a, b)
}

/// Bounds `(a, b)` with `v[a..b] == trim(v)`.
pub fn trim_bounds(v: &[char]) -> (r: (usize, usize))
    ensures
        r.0 <= r.1 <= v@.len(),
        v@.subrange(r.0 as int, r.1 as int) == trim(v@),
{
    let r = trim_range(v, 0, v.len());
    assert(v@.subrange(0, v@.len() as int) =~= v@);
    r
}

/// Appends `v[lo..hi]` to `s`.
pub fn push_range(s: &mut String, v: &[char], lo: usize, hi: usize)
    requires
        lo <= hi <= v@.len(),
    ensures
        final(s)@ == old(s)@ + v@.subrange(lo as int, hi as int),
{
    let mut i = lo;
    while i < hi
        invariant
            lo <= i <= hi <= v@.len(),
            s@ == old(s)@ + v@.subrange(lo as int, i as int),
        decreases hi - i,
    {
        s.push(v[i]);
        i += 1;
        assert(s@ =~= old(s)@ + v@.subrange(lo as int, i as int));
    }
}

/// `s` begins with `p`.
pub open spec fn starts_with(s: Seq<char>, p: Seq<char>) -> bool {
    p.len() <= s.len() && s.take(p.len() as int) == p
}

/// `p + m` begins with `p`.
pub proof fn lemma_starts_with_concat(p: Seq<char>, m: Seq<char>)
    ensures
        starts_with(p + m, p),
{
    assert((p + m).take(p.len() as int) =~= p);
}

/// `s` with leading and trailing white space removed, as a new string.
pub fn trimmed(s: &str) -> (r: String)
    ensures
        r@ == trim(s@),
{
    let v = chars_of(s);
    let (a, b) = trim_bounds(v.as_slice());
    string_from(v.as_slice(), a, b)
}

/// Whether `s` is empty once trimmed.
pub fn is_blank(s: &str) -> (b: bool)
    ensures
        b == (trim(s@).len() == 0),
        b == all_white_space(s@),
{
    proof {
        lemma_trim_facts(s@);
    }
    let v = chars_of(s);
    let (a, b) = trim_bounds(v.as_slice());
    a == b
}

/// Whether `a` and `b` hold the same characters.
pub fn same_chars(a: &[char], b: &[char]) -> (r: bool)
    ensures
        r == (a@ == b@),
{
    if a.len() != b.len() {
        return false;
    }
    let mut i: usize = 0;
    while i < a.len()
        invariant
            i <= a@.len() == b@.len(),
            forall|k: int| 0 <= k < i ==> a@[k] == b@[k],
        decreases a.len() - i,
    {
        if a[i] != b[i] {
            return false;
        }
        i += 1;
    }
    assert(a@ =~= b@);
    true
}

/// Whether `a` and `b` are the same text.
pub fn same_text(a: &str, b: &str) -> (r: bool)
    ensures
        r == (a@ == b@),
{
    let va = chars_of(a);
    let vb = chars_of(b);
    same_chars(va.as_slice(), vb.as_slice())
}

/// The ASCII digit for `d < 10`.
pub open spec fn digit_char(d: nat) -> char {
    (48 + d) as char
}

/// Decimal notation of `n`, without sign or leading zeros.
pub open spec fn decimal(n: nat) -> Seq<char>
    decreases n,
{
    if n < 10 {
        seq![digit_char(n)]
    } else {
        decimal(n / 10).push(digit_char(n % 10))
    }
}

/// Appends the decimal notation of `n` to `s`.
pub fn push_decimal(s: &mut String, n: usize)
    ensures
        final(s)@ == old(s)@ + decimal(n as nat),
    decreases n,
{
    if n >= 10 {
        push_decimal(s, n / 10);
    }
    let d = (n % 10) as u8;
    let c = (48u8 + d) as char;
    assert(c == digit_char((n % 10) as nat));
    s.push(c);
    proof {
        if n < 10 {
            assert(decimal(n as nat) =~= seq![digit_char(n as nat)]);
        }
    }
    assert(s@ =~= old(s)@ + decimal(n as nat));
}

} // verus!

verus! {

/// `prefix` followed by `rest`, as a new string.
pub fn concat(prefix: &str, rest: &str) -> (r: String)
    ensures
        r@ == prefix@ + rest@,
{
    let mut r = String::new();
    push_str(&mut r, prefix);
    push_str(&mut r, rest);
    assert(r@ =~= prefix@ + rest@);
    r
}

/// A new string holding the text of `s`.
pub fn owned(s: &str) -> (r: String)
    ensures
        r@ == s@,
{
    let mut r = String::new();
    push_str(&mut r, s);
    assert(r@ =~= s@);
    r
}

/// Index `k` with `v[k..hi] == trim_start(v[lo..hi])`.
pub fn skip_white_space_range(v: &[char], lo: usize, hi: usize) -> (k: usize)
    requires
        lo <= hi <= v@.len(),
    ensures
        lo <= k <= hi,
        v@.subrange(k as int, hi as int) == trim_start(v@.subrange(lo as int, hi as int)),
{
    let ghost w = v@.subrange(lo as int, hi as int);
    let mut a: usize = lo;
    while a < hi && char_is_white_space(v[a])
        invariant
            lo <= a <= hi <= v@.len(),
            w == v@.subrange(lo as int, hi as int),
            skip_white_space(w, (a - lo) as nat) == skip_white_space(w, 0),
        decreases hi - a,
    {
        assert(w[a - lo] == v@[a as int]);
        a += 1;
    }
    proof {
        if a < hi {
            assert(w[a - lo] == v@[a as int]);
        }
        assert(v@.subrange(a as int, hi as int) =~= trim_start(w));
    }
    a
}

/// Index `k` with `v[lo..k] == trim_end(v[lo..hi])`.
pub fn back_over_white_space_range(v: &[char], lo: usize, hi: usize) -> (k: usize)
    requires
        lo <= hi <= v@.len(),
    ensures
        lo <= k <= hi,
        v@.subrange(lo as int, k as int) == trim_end(v@.subrange(lo as int, hi as int)),
{
    let ghost t = v@.subrange(lo as int, hi as int);
    let mut b: usize = hi;
    while b > lo && char_is_white_space(v[b - 1])
        invariant
            lo <= b <= hi <= v@.len(),
            t == v@.subrange(lo as int, hi as int),
            back_over_white_space(t, (b - lo) as nat) == back_over_white_space(t, t.len()),
        decreases b,
    {
        assert(t[b - lo - 1] == v@[b - 1]);
        b -= 1;
    }
    proof {
        if b > lo {
            assert(t[b - lo - 1] == v@[b - 1]);
        }
        assert(v@.subrange(lo as int, b as int) =~= trim_end(t));
    }
    b
}

/// Whether `v[lo..hi]` begins with `pat`.
pub fn starts_with_at(v: &[char], lo: usize, hi: usize, pat: &[char]) -> (r: bool)
    requires
        lo <= hi <= v@.len(),
    ensures
        r == starts_with(v@.subrange(lo as int, hi as int), pat@),
{
    let ghost w = v@.subrange(lo as int, hi as int);
    if pat.len() > hi - lo {
        return false;
    }
    let mut i: usize = 0;
    while i < pat.len()
        invariant
            i <= pat@.len() <= hi - lo,
            lo <= hi <= v@.len(),
            w == v@.subrange(lo as int, hi as int),
            forall|k: int| 0 <= k < i ==> w[k] == pat@[k],
        decreases pat.len() - i,
    {
        if v[lo + i] != pat[i] {
            assert(w.take(pat@.len() as int)[i as int] != pat@[i as int]);
            return false;
        }
        i += 1;
    }
    assert(w.take(pat@.len() as int) =~= pat@);
    true
}

/// `s` ends with `p`.
pub open spec fn ends_with(s: Seq<char>, p: Seq<char>) -> bool {
    p.len() <= s.len() && s.skip(s.len() - p.len()) == p
}

/// Whether `v[lo..hi]` ends with `pat`.
pub fn ends_with_at(v: &[char], lo: usize, hi: usize, pat: &[char]) -> (r: bool)
    requires
        lo <= hi <= v@.len(),
    ensures
        r == ends_with(v@.subrange(lo as int, hi as int), pat@),
{
    let ghost w = v@.subrange(lo as int, hi as int);
    if pat.len() > hi - lo {
        return false;
    }
    let base = hi - pat.len();
    let mut i: usize = 0;
    while i < pat.len()
        invariant
            i <= pat@.len() <= hi - lo,
            base == hi - pat@.len(),
            lo <= hi <= v@.len(),
            w == v@.subrange(lo as int, hi as int),
            forall|k: int| 0 <= k < i ==> w[w.len() - pat@.len() + k] == pat@[k],
        decreases pat.len() - i,
    {
        if v[base + i] != pat[i] {
            assert(w.skip(w.len() - pat@.len())[i as int] != pat@[i as int]);
            return false;
        }
        i += 1;
    }
    assert(w.skip(w.len() - pat@.len()) =~= pat@);
    true
}

/// A copy of `v[lo..hi]`.
pub fn copy_range(v: &[char], lo: usize, hi: usize) -> (r: Vec<char>)
    requires
        lo <= hi <= v@.len(),
    ensures
        r@ == v@.subrange(lo as int, hi as int),
{
    let mut r: Vec<char> = Vec::new();
    let mut i = lo;
    while i < hi
        invariant
            lo <= i <= hi <= v@.len(),
            r@ == v@.subrange(lo as int, i as int),
        decreases hi - i,
    {
        r.push(v[i]);
        i += 1;
        assert(r@ =~= v@.subrange(lo as int, i as int));
    }
    r
}

} // verus!
