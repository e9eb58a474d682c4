//! The text normalizer: turns a scraped HTML fragment into clean
//! line-oriented text.  The steps run in a fixed order — numeric character
//! references are decoded first, then `<br>`/`<p>` tags collapse to
//! newlines, then every remaining tag is stripped, then the named-entity
//! table is applied, and finally leading whitespace is trimmed.

use vstd::prelude::*;
use crate::scan::valid_scalar;
use crate::scan::char_from_u32;

verus! {

/// A character a numeric-reference body may contain (a word character:
/// letter, digit or underscore).
pub open spec fn is_word_char(c: char) -> bool {
    ('a' <= c && c <= 'z') || ('A' <= c && c <= 'Z') || ('0' <= c && c <= '9') || c == '_'
}

/// Number of consecutive word characters in `s` starting at `i`.
pub open spec fn word_run(s: Seq<char>, i: int) -> nat
    decreases s.len() - i,
{
    if i < 0 || i >= s.len() || !is_word_char(s[i]) {
        0
    } else {
        1 + word_run(s, i + 1)
    }
}

/// A numeric character reference — `&#`, at most five word characters,
/// `;` — starts at `i`.
pub open spec fn ref_match_at(s: Seq<char>, i: int) -> bool {
    &&& 0 <= i
    &&& i + 2 <= s.len()
    &&& s[i] == '&'
    &&& s[i + 1] == '#'
    &&& word_run(s, i + 2) <= 5
    &&& i + 2 + word_run(s, i + 2) < s.len()
    &&& s[i + 2 + word_run(s, i + 2)] == ';'
}

pub open spec fn dec_digit(c: char) -> bool {
    '0' <= c && c <= '9'
}

pub open spec fn hex_digit(c: char) -> bool {
    dec_digit(c) || ('a' <= c && c <= 'f') || ('A' <= c && c <= 'F')
}

pub open spec fn digit_val(c: char) -> int {
    if dec_digit(c) {
        c as int - '0' as int
    } else if 'a' <= c && c <= 'f' {
        10 + (c as int - 'a' as int)
    } else if 'A' <= c && c <= 'F' {
        10 + (c as int - 'A' as int)
    } else {
        -1
    }
}

/// The body consists of at least one digit of the base in use.
pub open spec fn digits_ok(body: Seq<char>, hex: bool) -> bool {
    body.len() > 0 && forall|k: int|
        0 <= k < body.len() ==> (if hex {
            hex_digit(body[k])
        } else {
            dec_digit(body[k])
        })
}

/// Numeric value of a digit string, most significant digit first.
pub open spec fn digits_value(body: Seq<char>, hex: bool) -> int
    decreases body.len(),
{
    if body.len() == 0 {
        0
    } else {
        digits_value(body.drop_last(), hex) * (if hex { 16int } else { 10int }) + digit_val(body.last())
    }
}

/// The character a reference body denotes: a leading `x` selects
/// hexadecimal, anything else is read as decimal; the digits must parse and
/// must name a Unicode scalar value.
pub open spec fn ref_value(body: Seq<char>) -> Option<char> {
    if body.len() > 0 && body[0] == 'x' {
        let digits = body.subrange(1, body.len() as int);
        if digits_ok(digits, true) && valid_scalar(digits_value(digits, true)) {
            Some(digits_value(digits, true) as char)
        } else {
            None
        }
    } else {
        if digits_ok(body, false) && valid_scalar(digits_value(body, false)) {
            Some(digits_value(body, false) as char)
        } else {
            None
        }
    }
}

/// Decode every numeric character reference in `s` from position `i` on;
/// `None` when a reference is malformed (bad digits or an invalid code
/// point).
pub open spec fn decode_refs_from(s: Seq<char>, i: int) -> Option<Seq<char>>
    decreases s.len() - i,
{
    if i >= s.len() {
        Some(Seq::empty())
    } else if ref_match_at(s, i) {
        let run = word_run(s, i + 2) as int;
        match ref_value(s.subrange(i + 2, i + 2 + run)) {
            None => None,
            Some(c) => match decode_refs_from(s, i + 3 + run) {
                None => None,
                Some(rest) => Some(seq![c] + rest),
            },
        }
    } else {
        match decode_refs_from(s, i + 1) {
            None => None,
            Some(rest) => Some(seq![s[i]] + rest),
        }
    }
}

pub open spec fn decode_refs(s: Seq<char>) -> Option<Seq<char>> {
    decode_refs_from(s, 0)
}

fn is_word_char_c(c: char) -> (b: bool)
    ensures
        b == is_word_char(c),
{
    let u = c as u32;
    (97 <= u && u <= 122) || (65 <= u && u <= 90) || (48 <= u && u <= 57) || u == 95
}

/// Length of the word-character run at `i`, capped at six: the cap is
/// enough to decide whether a run fits a reference body.
fn word_run_capped(s: &Vec<char>, i: usize) -> (r: usize)
    requires
        i <= s@.len(),
    ensures
        r <= 6,
        i + r <= s@.len(),
        r < 6 ==> r == word_run(s@, i as int),
        r == 6 ==> word_run(s@, i as int) >= 6,
{
    let n = s.len();
    let mut cnt: usize = 0;
    loop
        invariant
            n == s@.len(),
            i + cnt <= n,
            cnt <= 6,
            word_run(s@, i as int) == cnt + word_run(s@, i + cnt),
        decreases n - i - cnt + 7 - cnt,
    {
        if cnt == 6 {
            return 6;
        }
        if i + cnt == n {
            return cnt;
        }
        if !is_word_char_c(s[i + cnt]) {
            return cnt;
        }
        cnt += 1;
    }
}

fn digit_of(c: char, hex: bool) -> (r: Option<u32>)
    ensures
        r is Some <==> (if hex {
            hex_digit(c)
        } else {
            dec_digit(c)
        }),
        r is Some ==> r->Some_0 == digit_val(c),
{
    let u = c as u32;
    if 48 <= u && u <= 57 {
        Some(u - 48)
    } else if hex && 97 <= u && u <= 102 {
        Some(u - 97 + 10)
    } else if hex && 65 <= u && u <= 70 {
        Some(u - 65 + 10)
    } else {
        None
    }
}

/// Bound on the value of `j` digits: `16^j`, capped at the five-digit
/// maximum.
spec fn digits_cap(j: int) -> int {
    if j <= 0 {
        1
    } else if j == 1 {
        16
    } else if j == 2 {
        256
    } else if j == 3 {
        4096
    } else if j == 4 {
        65536
    } else {
        1048576
    }
}

proof fn lemma_digits_step(digits: Seq<char>, m: int, hex: bool)
    requires
        0 <= m < digits.len(),
    ensures
        digits_value(digits.subrange(0, m + 1), hex) == digits_value(digits.subrange(0, m), hex)
            * (if hex { 16int } else { 10int }) + digit_val(digits[m]),
{
    let pre = digits.subrange(0, m + 1);
    assert(pre.drop_last() =~= digits.subrange(0, m));
    assert(pre.last() == digits[m]);
}

/// Parse the digits `s[lo..hi]` as a code point and return the character,
/// or `None` on empty or invalid digits or a non-scalar value.
fn parse_scalar(s: &Vec<char>, lo: usize, hi: usize, hex: bool) -> (r: Option<char>)
    requires
        lo <= hi <= s@.len(),
        hi - lo <= 5,
    ensures
        ({
            let digits = s@.subrange(lo as int, hi as int);
            &&& r is Some <==> (digits_ok(digits, hex) && valid_scalar(digits_value(digits, hex)))
            &&& r is Some ==> r->Some_0 == digits_value(digits, hex) as char
        }),
{
    let ghost digits = s@.subrange(lo as int, hi as int);
    if lo == hi {
        return None;
    }
    let mut v: u32 = 0;
    let mut j: usize = lo;
    while j < hi
        invariant
            lo <= j <= hi <= s@.len(),
            hi - lo <= 5,
            digits == s@.subrange(lo as int, hi as int),
            v as int == digits_value(digits.subrange(0, j - lo), hex),
            (v as int) < digits_cap(j - lo),
            forall|k: int|
                0 <= k < j - lo ==> (if hex {
                    hex_digit(digits[k])
                } else {
                    dec_digit(digits[k])
                }),
        decreases hi - j,
    {
        let d = match digit_of(s[j], hex) {
            Some(d) => d,
            None => {
                assert(digits[j - lo] == s@[j as int]);
                return None;
            },
        };
        proof {
            lemma_digits_step(digits, j - lo, hex);
            assert(digits[j - lo] == s@[j as int]);
        }
        if hex {
            v = v * 16 + d;
        } else {
            v = v * 10 + d;
        }
        j += 1;
    }
    proof {
        assert(digits.subrange(0, (hi - lo) as int) =~= digits);
    }
    match char_from_u32(v) {
        Some(c) => Some(c),
        None => None,
    }
}

/// Decode the numeric character references of `s`; `None` when one is
/// malformed.
pub fn decode_refs_vec(s: &Vec<char>) -> (r: Option<Vec<char>>)
    ensures
        r is Some <==> decode_refs(s@) is Some,
        r is Some ==> r->Some_0@ == decode_refs(s@)->Some_0,
{
    let n = s.len();
    let mut out: Vec<char> = Vec::new();
    let mut i: usize = 0;
    while i < n
        invariant
            n == s@.len(),
            0 <= i <= n,
            decode_refs(s@) is Some <==> decode_refs_from(s@, i as int) is Some,
            decode_refs_from(s@, i as int) is Some ==> decode_refs(s@)->Some_0 == out@
                + decode_refs_from(s@, i as int)->Some_0,
        decreases n - i,
    {
        let mut matched = false;
        if s[i] == '&' && i + 1 < n {
            if s[i + 1] == '#' {
                let run = word_run_capped(s, i + 2);
                if run < 6 {
                    let semi = i + 2 + run;
                    if semi < n && s[semi] == ';' {
                        // A reference starts here.
                        assert(ref_match_at(s@, i as int));
                        let ghost body = s@.subrange(i + 2, i + 2 + run as int);
                        let hex = run >= 1 && s[i + 2] == 'x';
                        let lo = if hex {
                            i + 3
                        } else {
                            i + 2
                        };
                        proof {
                            if hex {
                                assert(body.subrange(1, body.len() as int) =~= s@.subrange(
                                    lo as int,
                                    semi as int,
                                ));
                            } else {
                                assert(body =~= s@.subrange(lo as int, semi as int));
                                if body.len() > 0 {
                                    assert(body[0] == s@[i + 2]);
                                }
                            }
                        }
                        match parse_scalar(s, lo, semi, hex) {
                            Some(c) => {
                                assert(ref_value(body) == Some(c));
                                let ghost rest = decode_refs_from(s@, semi + 1);
                                proof {
                                    if rest is Some {
                                        assert(out@ + (seq![c] + rest->Some_0) =~= (out@ + seq![c])
                                            + rest->Some_0);
                                    }
                                }
                                out.push(c);
                                i = semi + 1;
                                matched = true;
                            },
                            None => {
                                assert(ref_value(body) is None);
                                assert(decode_refs_from(s@, i as int) is None);
                                return None;
                            },
                        }
                    }
                }
            }
        }
        if !matched {
            assert(!ref_match_at(s@, i as int));
            let ghost rest = decode_refs_from(s@, i + 1);
            proof {
                if rest is Some {
                    assert(out@ + (seq![s@[i as int]] + rest->Some_0) =~= (out@ + seq![
                        s@[i as int],
                    ]) + rest->Some_0);
                }
            }
            out.push(s[i]);
            i += 1;
        }
    }
    assert(decode_refs_from(s@, i as int) == Some(Seq::<char>::empty()));
    assert(decode_refs_from(s@, i as int) is Some ==> out@ + decode_refs_from(
        s@,
        i as int,
    )->Some_0 =~= out@);
    Some(out)
}

} // verus!

verus! {

/// End (exclusive) of a tag whose attribute part runs from `q`: the first
/// `>` at or after `q`, unless a newline comes first.
pub open spec fn gt_scan(s: Seq<char>, q: int) -> Option<int>
    decreases s.len() - q,
{
    if q < 0 || q >= s.len() {
        None
    } else if s[q] == '>' {
        Some(q + 1)
    } else if s[q] == '\n' {
        None
    } else {
        gt_scan(s, q + 1)
    }
}

pub proof fn lemma_gt_scan(s: Seq<char>, q: int)
    requires
        0 <= q,
    ensures
        gt_scan(s, q) matches Some(e) ==> q < e <= s.len(),
    decreases s.len() - q,
{
    if 0 <= q < s.len() && s[q] != '>' && s[q] != '\n' {
        lemma_gt_scan(s, q + 1);
    }
}

/// End (exclusive) of a `<br>` or `<p>` tag starting at `i`: `<`, an
/// optional `/`, the name, then attribute text (no newline) up to `>`.
pub open spec fn br_match(s: Seq<char>, i: int) -> Option<int> {
    if !(0 <= i && i < s.len() && s[i] == '<') {
        None
    } else {
        let j = if i + 1 < s.len() && s[i + 1] == '/' {
            i + 2
        } else {
            i + 1
        };
        if j + 1 < s.len() && s[j] == 'b' && s[j + 1] == 'r' {
            gt_scan(s, j + 2)
        } else if j < s.len() && s[j] == 'p' {
            gt_scan(s, j + 1)
        } else {
            None
        }
    }
}

pub proof fn lemma_br_match(s: Seq<char>, i: int)
    ensures
        br_match(s, i) matches Some(e) ==> i < e <= s.len(),
{
    if 0 <= i && i < s.len() && s[i] == '<' {
        let j = if i + 1 < s.len() && s[i + 1] == '/' {
            i + 2
        } else {
            i + 1
        };
        lemma_gt_scan(s, j + 2);
        lemma_gt_scan(s, j + 1);
    }
}

/// Replace every `<br>`/`<p>` tag from `i` on with a newline, copying all
/// other characters.
pub open spec fn collapse_breaks_from(s: Seq<char>, i: int) -> Seq<char>
    decreases s.len() - i,
    when 0 <= i
    via collapse_breaks_decreases
{
    if i >= s.len() {
        Seq::empty()
    } else {
        match br_match(s, i) {
            Some(e) => seq!['\n'] + collapse_breaks_from(s, e),
            None => seq![s[i]] + collapse_breaks_from(s, i + 1),
        }
    }
}

#[via_fn]
proof fn collapse_breaks_decreases(s: Seq<char>, i: int) {
    lemma_br_match(s, i);
}

pub open spec fn collapse_breaks(s: Seq<char>) -> Seq<char> {
    collapse_breaks_from(s, 0)
}

/// Position of the first `>` at or after `q`.
pub open spec fn gt_find(s: Seq<char>, q: int) -> Option<int>
    decreases s.len() - q,
{
    if q < 0 || q >= s.len() {
        None
    } else if s[q] == '>' {
        Some(q)
    } else {
        gt_find(s, q + 1)
    }
}

pub proof fn lemma_gt_find(s: Seq<char>, q: int)
    requires
        0 <= q,
    ensures
        gt_find(s, q) matches Some(e) ==> q <= e < s.len(),
    decreases s.len() - q,
{
    if 0 <= q < s.len() && s[q] != '>' {
        lemma_gt_find(s, q + 1);
    }
}

/// End (exclusive) of a generic markup span at `i`: `<`, one or more
/// characters other than `>`, then `>`.
pub open spec fn tag_match(s: Seq<char>, i: int) -> Option<int> {
    if !(0 <= i && i < s.len() && s[i] == '<') {
        None
    } else {
        match gt_find(s, i + 1) {
            None => None,
            Some(e) => if e > i + 1 {
                Some(e + 1)
            } else {
                None
            },
        }
    }
}

pub proof fn lemma_tag_match(s: Seq<char>, i: int)
    ensures
        tag_match(s, i) matches Some(e) ==> i < e <= s.len(),
{
    if 0 <= i && i < s.len() && s[i] == '<' {
        lemma_gt_find(s, i + 1);
    }
}

/// Remove every generic markup span from `i` on, copying all other
/// characters.
pub open spec fn strip_tags_from(s: Seq<char>, i: int) -> Seq<char>
    decreases s.len() - i,
    when 0 <= i
    via strip_tags_decreases
{
    if i >= s.len() {
        Seq::empty()
    } else {
        match tag_match(s, i) {
            Some(e) => strip_tags_from(s, e),
            None => seq![s[i]] + strip_tags_from(s, i + 1),
        }
    }
}

#[via_fn]
proof fn strip_tags_decreases(s: Seq<char>, i: int) {
    lemma_tag_match(s, i);
}

pub open spec fn strip_tags(s: Seq<char>) -> Seq<char> {
    strip_tags_from(s, 0)
}

fn gt_scan_exec(s: &Vec<char>, q: usize) -> (r: Option<usize>)
    requires
        q <= s@.len(),
    ensures
        match r {
            Some(e) => gt_scan(s@, q as int) == Some(e as int) && q < e <= s@.len(),
            None => gt_scan(s@, q as int) is None,
        },
{
    let n = s.len();
    let mut k: usize = q;
    loop
        invariant
            n == s@.len(),
            q <= k <= n,
            gt_scan(s@, q as int) == gt_scan(s@, k as int),
        decreases n - k,
    {
        if k == n {
            return None;
        }
        if s[k] == '>' {
            return Some(k + 1);
        }
        if s[k] == '\n' {
            return None;
        }
        k += 1;
    }
}

fn gt_find_exec(s: &Vec<char>, q: usize) -> (r: Option<usize>)
    requires
        q <= s@.len(),
    ensures
        match r {
            Some(e) => gt_find(s@, q as int) == Some(e as int) && q <= e < s@.len(),
            None => gt_find(s@, q as int) is None,
        },
{
    let n = s.len();
    let mut k: usize = q;
    loop
        invariant
            n == s@.len(),
            q <= k <= n,
            gt_find(s@, q as int) == gt_find(s@, k as int),
        decreases n - k,
    {
        if k == n {
            return None;
        }
        if s[k] == '>' {
            return Some(k);
        }
        k += 1;
    }
}

fn br_match_exec(s: &Vec<char>, i: usize) -> (r: Option<usize>)
    requires
        i < s@.len(),
    ensures
        match r {
            Some(e) => br_match(s@, i as int) == Some(e as int) && i < e <= s@.len(),
            None => br_match(s@, i as int) is None,
        },
{
    let n = s.len();
    if s[i] != '<' {
        return None;
    }
    let j = if i + 1 < n && s[i + 1] == '/' {
        i + 2
    } else {
        i + 1
    };
    if j < n && s[j] == 'b' {
        if j + 1 < n && s[j + 1] == 'r' {
            gt_scan_exec(s, j + 2)
        } else {
            None
        }
    } else if j < n && s[j] == 'p' {
        gt_scan_exec(s, j + 1)
    } else {
        None
    }
}

/// Replace every `<br>`/`<p>` tag in `s` with a newline.
pub fn collapse_breaks_vec(s: &Vec<char>) -> (out: Vec<char>)
    ensures
        out@ == collapse_breaks(s@),
{
    let n = s.len();
    let mut out: Vec<char> = Vec::new();
    let mut i: usize = 0;
    while i < n
        invariant
            n == s@.len(),
            0 <= i <= n,
            collapse_breaks(s@) == out@ + collapse_breaks_from(s@, i as int),
        decreases n - i,
    {
        match br_match_exec(s, i) {
            Some(e) => {
                proof {
                    assert(out@ + (seq!['\n'] + collapse_breaks_from(s@, e as int)) =~= (out@
                        + seq!['\n']) + collapse_breaks_from(s@, e as int));
                }
                out.push('\n');
                i = e;
            },
            None => {
                proof {
                    assert(out@ + (seq![s@[i as int]] + collapse_breaks_from(s@, i + 1)) =~= (out@
                        + seq![s@[i as int]]) + collapse_breaks_from(s@, i + 1));
                }
                out.push(s[i]);
                i += 1;
            },
        }
    }
    assert(out@ + collapse_breaks_from(s@, i as int) =~= out@);
    out
}

/// Remove every remaining markup span from `s`.
pub fn strip_tags_vec(s: &Vec<char>) -> (out: Vec<char>)
    ensures
        out@ == strip_tags(s@),
{
    let n = s.len();
    let mut out: Vec<char> = Vec::new();
    let mut i: usize = 0;
    while i < n
        invariant
            n == s@.len(),
            0 <= i <= n,
            strip_tags(s@) == out@ + strip_tags_from(s@, i as int),
        decreases n - i,
    {
        let mut tag_end: Option<usize> = None;
        if s[i] == '<' {
            match gt_find_exec(s, i + 1) {
                Some(e) => {
                    if e > i + 1 {
                        tag_end = Some(e + 1);
                    }
                },
                None => {},
            }
        }
        match tag_end {
            Some(e) => {
                assert(tag_match(s@, i as int) == Some(e as int));
                i = e;
            },
            None => {
                assert(tag_match(s@, i as int) is None);
                proof {
                    assert(out@ + (seq![s@[i as int]] + strip_tags_from(s@, i + 1)) =~= (out@
                        + seq![s@[i as int]]) + strip_tags_from(s@, i + 1));
                }
                out.push(s[i]);
                i += 1;
            },
        }
    }
    assert(out@ + strip_tags_from(s@, i as int) =~= out@);
    out
}

} // verus!

verus! {

use crate::scan::match_at;
use crate::scan::is_match;
use crate::scan::str_to_chars;
use crate::scan::chars_to_string;
use crate::error::Error;

/// The named-entity table, in the order it is consulted; no name is a
/// prefix of another, so at most one entry matches at a position.
pub open spec fn entity_table() -> Seq<(Seq<char>, char)> {
    seq![
        (seq!['&', 'n', 'b', 's', 'p', ';'], ' '),
        (seq!['&', 'l', 't', ';'], '<'),
        (seq!['&', 'g', 't', ';'], '>'),
        (seq!['&', 'a', 'm', 'p', ';'], '&'),
        (seq!['&', 'q', 'u', 'o', 't', ';'], '"'),
        (seq!['&', 'a', 'p', 'o', 's', ';'], '\''),
        (seq!['&', 'c', 'e', 'n', 't', ';'], '¢'),
        (seq!['&', 'p', 'o', 'u', 'n', 'd', ';'], '£'),
        (seq!['&', 'y', 'e', 'n', ';'], '¥'),
        (seq!['&', 'e', 'u', 'r', 'o', ';'], '€'),
        (seq!['&', 'c', 'o', 'p', 'y', ';'], '©'),
        (seq!['&', 'r', 'e', 'g', ';'], '®'),
        (seq!['&', 'n', 'd', 'a', 's', 'h', ';'], '–'),
        (seq!['&', 'm', 'd', 'a', 's', 'h', ';'], '—'),
    ]
}

/// First table entry at or after row `k` that matches at `i`:
/// `(pattern length, replacement)`.
pub open spec fn entity_at_k(s: Seq<char>, i: int, k: int) -> Option<(int, char)>
    decreases entity_table().len() - k,
{
    if k < 0 || k >= entity_table().len() {
        None
    } else if match_at(s, entity_table()[k].0, i) {
        Some((entity_table()[k].0.len() as int, entity_table()[k].1))
    } else {
        entity_at_k(s, i, k + 1)
    }
}

pub open spec fn entity_at(s: Seq<char>, i: int) -> Option<(int, char)> {
    entity_at_k(s, i, 0)
}

pub proof fn lemma_entity_at_k(s: Seq<char>, i: int, k: int)
    ensures
        entity_at_k(s, i, k) matches Some(p) ==> 1 <= p.0 && 0 <= i && i + p.0 <= s.len(),
    decreases entity_table().len() - k,
{
    if 0 <= k < entity_table().len() {
        if match_at(s, entity_table()[k].0, i) {
            assert(entity_table()[k].0.len() >= 1);
        } else {
            lemma_entity_at_k(s, i, k + 1);
        }
    }
}

/// Decode every named entity in `s` from `i` on.
pub open spec fn decode_entities_from(s: Seq<char>, i: int) -> Seq<char>
    decreases s.len() - i,
    when 0 <= i
    via decode_entities_decreases
{
    if i >= s.len() {
        Seq::empty()
    } else {
        match entity_at(s, i) {
            Some(p) => seq![p.1] + decode_entities_from(s, i + p.0),
            None => seq![s[i]] + decode_entities_from(s, i + 1),
        }
    }
}

#[via_fn]
proof fn decode_entities_decreases(s: Seq<char>, i: int) {
    lemma_entity_at_k(s, i, 0);
}

pub open spec fn decode_entities(s: Seq<char>) -> Seq<char> {
    decode_entities_from(s, 0)
}

/// Unicode whitespace, as `char::is_whitespace` accepts it.
pub open spec fn is_space(c: char) -> bool {
    c == ' ' || c == '\t' || c == '\n' || c == '\r' || c == '\u{b}' || c == '\u{c}' || c == '\u{85}'
        || c == '\u{a0}' || c == '\u{1680}' || ('\u{2000}' <= c && c <= '\u{200a}') || c
        == '\u{2028}' || c == '\u{2029}' || c == '\u{202f}' || c == '\u{205f}' || c == '\u{3000}'
}

/// Index of the first non-whitespace character at or after `i`.
pub open spec fn lead_spaces_from(s: Seq<char>, i: int) -> int
    decreases s.len() - i,
{
    if i < 0 || i >= s.len() || !is_space(s[i]) {
        i
    } else {
        lead_spaces_from(s, i + 1)
    }
}

pub proof fn lemma_lead_spaces(s: Seq<char>, i: int)
    requires
        0 <= i <= s.len(),
    ensures
        i <= lead_spaces_from(s, i) <= s.len(),
    decreases s.len() - i,
{
    if i < s.len() && is_space(s[i]) {
        lemma_lead_spaces(s, i + 1);
    }
}

/// `s` without its leading whitespace.
pub open spec fn trim_start_spec(s: Seq<char>) -> Seq<char> {
    let lead = lead_spaces_from(s, 0);
    if 0 <= lead <= s.len() {
        s.subrange(lead, s.len() as int)
    } else {
        Seq::empty()
    }
}

/// End (exclusive) of `s` once trailing whitespace before `i` is dropped.
pub open spec fn trail_end(s: Seq<char>, i: int) -> int
    decreases i,
{
    if i <= 0 || i > s.len() {
        0
    } else if is_space(s[i - 1]) {
        trail_end(s, i - 1)
    } else {
        i
    }
}

pub proof fn lemma_trail_end_nonspace(s: Seq<char>, i: int)
    requires
        0 <= i <= s.len(),
    ensures
        trail_end(s, i) > 0 ==> !is_space(s[trail_end(s, i) - 1]),
    decreases i,
{
    if 0 < i <= s.len() && is_space(s[i - 1]) {
        lemma_trail_end_nonspace(s, i - 1);
    }
}

/// `s` without leading or trailing whitespace.
pub open spec fn trim_spec(s: Seq<char>) -> Seq<char> {
    let lead = lead_spaces_from(s, 0);
    let tail = trail_end(s, s.len() as int);
    if 0 <= lead <= tail <= s.len() {
        s.subrange(lead, tail)
    } else {
        Seq::empty()
    }
}

/// `s` without carriage returns and line feeds, from `i` on.
pub open spec fn remove_crlf_from(s: Seq<char>, i: int) -> Seq<char>
    decreases s.len() - i,
{
    if i < 0 || i >= s.len() {
        Seq::empty()
    } else if s[i] == '\n' || s[i] == '\r' {
        remove_crlf_from(s, i + 1)
    } else {
        seq![s[i]] + remove_crlf_from(s, i + 1)
    }
}

pub open spec fn remove_crlf(s: Seq<char>) -> Seq<char> {
    remove_crlf_from(s, 0)
}

fn is_space_c(c: char) -> (b: bool)
    ensures
        b == is_space(c),
{
    let u = c as u32;
    u == 0x20 || (0x9 <= u && u <= 0xd) || u == 0x85 || u == 0xa0 || u == 0x1680 || (0x2000 <= u
        && u <= 0x200a) || u == 0x2028 || u == 0x2029 || u == 0x202f || u == 0x205f || u == 0x3000
}

/// The named-entity table as runtime data; row `k` mirrors row `k` of the
/// specification table.
fn entity_table_exec() -> (t: Vec<(Vec<char>, char)>)
    ensures
        t@.len() == entity_table().len(),
        forall|k: int|
            0 <= k < t@.len() ==> (#[trigger] t@[k].0)@ == entity_table()[k].0 && t@[k].1
                == entity_table()[k].1,
{
    let mut t: Vec<(Vec<char>, char)> = Vec::new();
    let e = str_to_chars("&nbsp;");
    proof {
        reveal_strlit("&nbsp;");
    }
    assert(e@ =~= entity_table()[0].0);
    t.push((e, ' '));
    let e = str_to_chars("&lt;");
    proof {
        reveal_strlit("&lt;");
    }
    assert(e@ =~= entity_table()[1].0);
    t.push((e, '<'));
    let e = str_to_chars("&gt;");
    proof {
        reveal_strlit("&gt;");
    }
    assert(e@ =~= entity_table()[2].0);
    t.push((e, '>'));
    let e = str_to_chars("&amp;");
    proof {
        reveal_strlit("&amp;");
    }
    assert(e@ =~= entity_table()[3].0);
    t.push((e, '&'));
    let e = str_to_chars("&quot;");
    proof {
        reveal_strlit("&quot;");
    }
    assert(e@ =~= entity_table()[4].0);
    t.push((e, '"'));
    let e = str_to_chars("&apos;");
    proof {
        reveal_strlit("&apos;");
    }
    assert(e@ =~= entity_table()[5].0);
    t.push((e, '\''));
    let e = str_to_chars("&cent;");
    proof {
        reveal_strlit("&cent;");
    }
    assert(e@ =~= entity_table()[6].0);
    t.push((e, '¢'));
    let e = str_to_chars("&pound;");
    proof {
        reveal_strlit("&pound;");
    }
    assert(e@ =~= entity_table()[7].0);
    t.push((e, '£'));
    let e = str_to_chars("&yen;");
    proof {
        reveal_strlit("&yen;");
    }
    assert(e@ =~= entity_table()[8].0);
    t.push((e, '¥'));
    let e = str_to_chars("&euro;");
    proof {
        reveal_strlit("&euro;");
    }
    assert(e@ =~= entity_table()[9].0);
    t.push((e, '€'));
    let e = str_to_chars("&copy;");
    proof {
        reveal_strlit("&copy;");
    }
    assert(e@ =~= entity_table()[10].0);
    t.push((e, '©'));
    let e = str_to_chars("&reg;");
    proof {
        reveal_strlit("&reg;");
    }
    assert(e@ =~= entity_table()[11].0);
    t.push((e, '®'));
    let e = str_to_chars("&ndash;");
    proof {
        reveal_strlit("&ndash;");
    }
    assert(e@ =~= entity_table()[12].0);
    t.push((e, '–'));
    let e = str_to_chars("&mdash;");
    proof {
        reveal_strlit("&mdash;");
    }
    assert(e@ =~= entity_table()[13].0);
    t.push((e, '—'));
    t
}

/// Decode the named entities of `s`.
/// First table entry matching at `i`, as `(pattern length, replacement)`.
fn find_entity(t: &Vec<(Vec<char>, char)>, s: &Vec<char>, i: usize) -> (r: Option<(usize, char)>)
    requires
        i <= s@.len(),
        t@.len() == entity_table().len(),
        forall|k: int|
            0 <= k < t@.len() ==> (#[trigger] t@[k].0)@ == entity_table()[k].0 && t@[k].1
                == entity_table()[k].1,
    ensures
        match r {
            Some(p) => entity_at(s@, i as int) == Some((p.0 as int, p.1)),
            None => entity_at(s@, i as int) is None,
        },
{
    let mut k: usize = 0;
    while k < t.len()
        invariant
            i <= s@.len(),
            0 <= k <= t@.len(),
            t@.len() == entity_table().len(),
            forall|kk: int|
                0 <= kk < t@.len() ==> (#[trigger] t@[kk].0)@ == entity_table()[kk].0 && t@[kk].1
                    == entity_table()[kk].1,
            entity_at(s@, i as int) == entity_at_k(s@, i as int, k as int),
        decreases t@.len() - k,
    {
        if is_match(s, &t[k].0, i) {
            proof {
                assert((t@[k as int].0)@ == entity_table()[k as int].0);
                assert(entity_at_k(s@, i as int, k as int) == Some(
                    (entity_table()[k as int].0.len() as int, entity_table()[k as int].1),
                ));
            }
            return Some((t[k].0.len(), t[k].1));
        }
        assert(entity_at_k(s@, i as int, k as int) == entity_at_k(s@, i as int, k + 1));
        k += 1;
    }
    None
}

pub fn decode_entities_vec(s: &Vec<char>) -> (out: Vec<char>)
    ensures
        out@ == decode_entities(s@),
{
    let t = entity_table_exec();
    let n = s.len();
    let mut out: Vec<char> = Vec::new();
    let mut i: usize = 0;
    while i < n
        invariant
            n == s@.len(),
            0 <= i <= n,
            t@.len() == entity_table().len(),
            forall|k: int|
                0 <= k < t@.len() ==> (#[trigger] t@[k].0)@ == entity_table()[k].0 && t@[k].1
                    == entity_table()[k].1,
            decode_entities(s@) == out@ + decode_entities_from(s@, i as int),
        decreases n - i,
    {
        let found = find_entity(&t, s, i);
        proof {
            lemma_entity_at_k(s@, i as int, 0);
        }
        match found {
            Some(p) => {
                proof {
                    assert(out@ + (seq![p.1] + decode_entities_from(s@, i + p.0)) =~= (out@
                        + seq![p.1]) + decode_entities_from(s@, i + p.0));
                }
                out.push(p.1);
                i = i + p.0;
            },
            None => {
                assert(entity_at(s@, i as int) is None);
                proof {
                    assert(out@ + (seq![s@[i as int]] + decode_entities_from(s@, i + 1)) =~= (out@
                        + seq![s@[i as int]]) + decode_entities_from(s@, i + 1));
                }
                out.push(s[i]);
                i += 1;
            },
        }
    }
    assert(out@ + decode_entities_from(s@, i as int) =~= out@);
    out
}

/// Drop the leading whitespace of `s`.
pub fn trim_start_vec(s: &Vec<char>) -> (out: Vec<char>)
    ensures
        out@ == trim_start_spec(s@),
{
    let n = s.len();
    let mut i: usize = 0;
    while i < n && is_space_c(s[i])
        invariant
            n == s@.len(),
            0 <= i <= n,
            lead_spaces_from(s@, 0) == lead_spaces_from(s@, i as int),
        decreases n - i,
    {
        i += 1;
    }
    assert(lead_spaces_from(s@, i as int) == i);
    let ghost start = i as int;
    let mut out: Vec<char> = Vec::new();
    while i < n
        invariant
            n == s@.len(),
            0 <= start <= i <= n,
            out@ == s@.subrange(start, i as int),
        decreases n - i,
    {
        out.push(s[i]);
        assert(out@ =~= s@.subrange(start, i + 1));
        i += 1;
    }
    assert(out@ =~= trim_start_spec(s@));
    out
}

/// Drop the leading and trailing whitespace of `s`.
pub fn trim_vec(s: &Vec<char>) -> (out: Vec<char>)
    ensures
        out@ == trim_spec(s@),
{
    let n = s.len();
    let mut tail: usize = n;
    while tail > 0 && is_space_c(s[tail - 1])
        invariant
            n == s@.len(),
            0 <= tail <= n,
            trail_end(s@, n as int) == trail_end(s@, tail as int),
        decreases tail,
    {
        tail -= 1;
    }
    assert(trail_end(s@, tail as int) == tail);
    let mut i: usize = 0;
    while i < tail && is_space_c(s[i])
        invariant
            n == s@.len(),
            0 <= i <= tail <= n,
            trail_end(s@, n as int) == tail,
            lead_spaces_from(s@, 0) == lead_spaces_from(s@, i as int),
            forall|j: int| 0 <= j < i ==> is_space(#[trigger] s@[j]),
        decreases tail - i,
    {
        i += 1;
    }
    proof {
        lemma_trail_end_nonspace(s@, n as int);
        lemma_lead_spaces(s@, 0);
        if i < tail {
            // The loop stopped on a non-whitespace character, so the lead
            // scan ends exactly here.
            assert(lead_spaces_from(s@, i as int) == i);
        } else if tail > 0 {
            // Impossible: everything before `tail` would be whitespace,
            // including the non-whitespace character just before `tail`.
            assert(is_space(s@[tail - 1]));
            assert(false);
        }
    }
    let ghost start = i as int;
    let mut out: Vec<char> = Vec::new();
    let mut j: usize = i;
    while j < tail
        invariant
            n == s@.len(),
            0 <= start <= j <= tail <= n,
            out@ == s@.subrange(start, j as int),
        decreases tail - j,
    {
        out.push(s[j]);
        assert(out@ =~= s@.subrange(start, j + 1));
        j += 1;
    }
    assert(out@ =~= trim_spec(s@));
    out
}

/// Drop every carriage return and line feed of `s`.
pub fn remove_crlf_vec(s: &Vec<char>) -> (out: Vec<char>)
    ensures
        out@ == remove_crlf(s@),
{
    let n = s.len();
    let mut out: Vec<char> = Vec::new();
    let mut i: usize = 0;
    while i < n
        invariant
            n == s@.len(),
            0 <= i <= n,
            remove_crlf(s@) == out@ + remove_crlf_from(s@, i as int),
        decreases n - i,
    {
        let c = s[i];
        if c != '\n' && c != '\r' {
            proof {
                assert(out@ + (seq![s@[i as int]] + remove_crlf_from(s@, i + 1)) =~= (out@ + seq![
                    s@[i as int],
                ]) + remove_crlf_from(s@, i + 1));
            }
            out.push(c);
        }
        i += 1;
    }
    assert(out@ + remove_crlf_from(s@, i as int) =~= out@);
    out
}

/// The full normalization of a raw fragment: numeric references decoded,
/// break tags collapsed to newlines, remaining markup stripped, named
/// entities decoded, leading whitespace trimmed.  `None` when a numeric
/// reference is malformed.
pub open spec fn normalize_spec(s: Seq<char>) -> Option<Seq<char>> {
    match decode_refs(s) {
        None => None,
        Some(t) => Some(trim_start_spec(decode_entities(strip_tags(collapse_breaks(t))))),
    }
}

/// The normalization passes, in their fixed order; `None` when a numeric
/// character reference is malformed.
pub fn normalize_vec(v: &Vec<char>) -> (r: Option<Vec<char>>)
    ensures
        r is Some <==> normalize_spec(v@) is Some,
        r is Some ==> r->Some_0@ == normalize_spec(v@)->Some_0,
{
    let d = match decode_refs_vec(v) {
        Some(d) => d,
        None => {
            return None;
        },
    };
    let b = collapse_breaks_vec(&d);
    let t = strip_tags_vec(&b);
    let e = decode_entities_vec(&t);
    Some(trim_start_vec(&e))
}

/// Normalize a scraped HTML fragment into clean multi-line text.
pub fn strip_html(content: &str) -> (r: Result<String, Error>)
    ensures
        r is Ok <==> normalize_spec(content@) is Some,
        r is Ok ==> r->Ok_0@ == normalize_spec(content@)->Some_0,
        r is Err ==> r->Err_0 == Error::BadCharReference,
{
    let v = str_to_chars(content);
    match normalize_vec(&v) {
        Some(w) => Ok(chars_to_string(&w)),
        None => Err(Error::BadCharReference),
    }
}

} // verus!
