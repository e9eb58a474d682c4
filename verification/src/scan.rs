//! Low-level scanning primitives shared by the normalizer, the URL builder
//! and the extraction patterns: literal substring search over character
//! sequences, plus the conversions between `str`/`String` and `Vec<char>`.

use vstd::prelude::*;
use vstd::string::StrSliceExecFns;

verus! {

/// `pat` occurs in `s` starting at index `i`.
pub open spec fn match_at(s: Seq<char>, pat: Seq<char>, i: int) -> bool {
    0 <= i && i + pat.len() <= s.len() && s.subrange(i, i + pat.len()) == pat
}

/// Index of the first occurrence of `pat` in `s` at or after `i`.
pub open spec fn find_from(s: Seq<char>, pat: Seq<char>, i: int) -> Option<int>
    decreases s.len() - i,
{
    if i < 0 || i + pat.len() > s.len() {
        None
    } else if pat.len() == 0 {
        Some(i)
    } else if match_at(s, pat, i) {
        Some(i)
    } else {
        find_from(s, pat, i + 1)
    }
}

/// What `find_from` returns: the first match position, or a guarantee that
/// no position at or after `i` matches.
pub proof fn lemma_find_from(s: Seq<char>, pat: Seq<char>, i: int)
    requires
        0 <= i <= s.len(),
    ensures
        match find_from(s, pat, i) {
            Some(j) => i <= j && j + pat.len() <= s.len() && match_at(s, pat, j) && forall|k: int|
                i <= k < j ==> !match_at(s, pat, k),
            None => forall|k: int| i <= k ==> !match_at(s, pat, k),
        },
    decreases s.len() - i,
{
    if i + pat.len() > s.len() {
        assert forall|k: int| i <= k implies !match_at(s, pat, k) by {};
    } else if pat.len() == 0 {
        assert(s.subrange(i, i) =~= pat);
    } else if match_at(s, pat, i) {
    } else {
        lemma_find_from(s, pat, i + 1);
    }
}

/// Does `pat` occur in `s` at exactly index `i`?
pub fn is_match(s: &Vec<char>, pat: &Vec<char>, i: usize) -> (b: bool)
    requires
        i <= s@.len(),
    ensures
        b == match_at(s@, pat@, i as int),
{
    let n = s.len();
    if pat.len() > n - i {
        return false;
    }
    let mut j: usize = 0;
    while j < pat.len()
        invariant
            i + pat@.len() <= s@.len(),
            s@.len() <= usize::MAX,
            0 <= j <= pat@.len(),
            forall|k: int| 0 <= k < j ==> s@[i + k] == pat@[k],
        decreases pat@.len() - j,
    {
        if s[i + j] != pat[j] {
            assert(!match_at(s@, pat@, i as int)) by {
                if match_at(s@, pat@, i as int) {
                    assert(s@.subrange(i as int, i + pat@.len())[j as int] == pat@[j as int]);
                }
            }
            return false;
        }
        j += 1;
    }
    assert(s@.subrange(i as int, i + pat@.len()) =~= pat@);
    true
}

/// First occurrence of `pat` in `s` at or after `from`.
pub fn find_sub(s: &Vec<char>, pat: &Vec<char>, from: usize) -> (r: Option<usize>)
    requires
        from <= s@.len(),
        pat@.len() >= 1,
    ensures
        match r {
            Some(j) => find_from(s@, pat@, from as int) == Some(j as int) && from <= j && j
                + pat@.len() <= s@.len(),
            None => find_from(s@, pat@, from as int) is None,
        },
{
    let mut i: usize = from;
    loop
        invariant
            from <= i <= s@.len(),
            pat@.len() >= 1,
            find_from(s@, pat@, from as int) == find_from(s@, pat@, i as int),
        decreases s@.len() - i,
    {
        if pat.len() > s.len() - i {
            return None;
        }
        if is_match(s, pat, i) {
            return Some(i);
        }
        i += 1;
    }
}

/// The characters of `s`, as a vector.
pub fn str_to_chars(s: &str) -> (v: Vec<char>)
    ensures
        v@ == s@,
{
    let n = s.unicode_len();
    let mut v: Vec<char> = Vec::new();
    let mut i: usize = 0;
    while i < n
        invariant
            n == s@.len(),
            0 <= i <= n,
            v@ == s@.subrange(0, i as int),
        decreases n - i,
    {
        let c = s.get_char(i);
        v.push(c);
        assert(v@ =~= s@.subrange(0, i + 1));
        i += 1;
    }
    assert(v@ =~= s@);
    v
}

/// Relies on `String`'s `FromIterator<&char>`: collecting an iterator of
/// characters yields the string of exactly those characters, in order.
#[verifier::external_body]
pub fn chars_to_string(v: &Vec<char>) -> (s: String)
    ensures
        s@ == v@,
{
    v.iter().collect()
}

/// A Unicode scalar value: the code points a `char` can hold.
pub open spec fn valid_scalar(n: int) -> bool {
    (0 <= n && n < 0xD800) || (0xE000 <= n && n <= 0x10FFFF)
}

/// Relies on `char::from_u32`: `Some` exactly for Unicode scalar values,
/// returning the character with that code point.
#[verifier::external_body]
pub fn char_from_u32(n: u32) -> (r: Option<char>)
    ensures
        r is Some <==> valid_scalar(n as int),
        r is Some ==> r->Some_0 == n as char,
{
    char::from_u32(n)
}

} // verus!

verus! {

/// Replace every non-overlapping occurrence of `pat` in `s` from `i` on
/// with `rep`, scanning left to right.
pub open spec fn replace_from(s: Seq<char>, pat: Seq<char>, rep: Seq<char>, i: int) -> Seq<char>
    decreases s.len() - i,
{
    if i < 0 || i >= s.len() {
        Seq::empty()
    } else if pat.len() > 0 && match_at(s, pat, i) {
        rep + replace_from(s, pat, rep, i + pat.len())
    } else {
        seq![s[i]] + replace_from(s, pat, rep, i + 1)
    }
}

pub open spec fn replace_all(s: Seq<char>, pat: Seq<char>, rep: Seq<char>) -> Seq<char> {
    replace_from(s, pat, rep, 0)
}

/// Append all of `src` to `out`.
pub fn push_all(out: &mut Vec<char>, src: &Vec<char>)
    ensures
        final(out)@ == old(out)@ + src@,
{
    let m = src.len();
    let mut k: usize = 0;
    while k < m
        invariant
            m == src@.len(),
            0 <= k <= m,
            out@ == old(out)@ + src@.subrange(0, k as int),
        decreases m - k,
    {
        out.push(src[k]);
        assert(out@ =~= old(out)@ + src@.subrange(0, k + 1));
        k += 1;
    }
    assert(old(out)@ + src@.subrange(0, m as int) =~= old(out)@ + src@);
}

/// Replace every occurrence of `pat` in `s` with `rep`.
pub fn replace_literal(s: &Vec<char>, pat: &Vec<char>, rep: &Vec<char>) -> (out: Vec<char>)
    requires
        pat@.len() >= 1,
    ensures
        out@ == replace_all(s@, pat@, rep@),
{
    let n = s.len();
    let mut out: Vec<char> = Vec::new();
    let mut i: usize = 0;
    while i < n
        invariant
            n == s@.len(),
            pat@.len() >= 1,
            0 <= i <= n,
            replace_all(s@, pat@, rep@) == out@ + replace_from(s@, pat@, rep@, i as int),
        decreases n - i,
    {
        if is_match(s, pat, i) {
            proof {
                assert(out@ + (rep@ + replace_from(s@, pat@, rep@, i + pat@.len())) =~= (out@
                    + rep@) + replace_from(s@, pat@, rep@, i + pat@.len()));
            }
            push_all(&mut out, rep);
            i += pat.len();
        } else {
            proof {
                assert(out@ + (seq![s@[i as int]] + replace_from(s@, pat@, rep@, i + 1)) =~= (out@
                    + seq![s@[i as int]]) + replace_from(s@, pat@, rep@, i + 1));
            }
            out.push(s[i]);
            i += 1;
        }
    }
    assert(out@ + replace_from(s@, pat@, rep@, i as int) =~= out@);
    out
}

} // verus!
