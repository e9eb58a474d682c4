//! The URL builder: turns a template with `%artist%` and `%title%`
//! placeholders plus a source's separator and apostrophe conventions into a
//! request URL.  The title first loses its feature annotation — a
//! parenthesized `(with…)`/`(feat…)` segment with one optional preceding
//! space — then apostrophes and word separators are rewritten in both
//! names, and finally the placeholders are substituted.

use vstd::prelude::*;
use crate::scan::match_at;
use crate::scan::is_match;
use crate::scan::replace_all;
use crate::scan::replace_literal;
use crate::scan::push_all;
use crate::scan::str_to_chars;
use crate::scan::chars_to_string;

verus! {

/// First `)` at or after `q` (no newline between), as the end (exclusive)
/// of the feature annotation.
pub open spec fn close_scan(s: Seq<char>, q: int) -> Option<int>
    decreases s.len() - q,
{
    if q < 0 || q >= s.len() {
        None
    } else if s[q] == ')' {
        Some(q + 1)
    } else if s[q] == '\n' {
        None
    } else {
        close_scan(s, q + 1)
    }
}

pub proof fn lemma_close_scan(s: Seq<char>, q: int)
    requires
        0 <= q,
    ensures
        close_scan(s, q) matches Some(e) ==> q < e <= s.len(),
    decreases s.len() - q,
{
    if 0 <= q < s.len() && s[q] != ')' && s[q] != '\n' {
        lemma_close_scan(s, q + 1);
    }
}

pub open spec fn kw_with() -> Seq<char> {
    seq!['w', 'i', 't', 'h']
}

pub open spec fn kw_feat() -> Seq<char> {
    seq!['f', 'e', 'a', 't']
}

/// End (exclusive) of a parenthesized feature segment starting at `p`:
/// `(`, one of the keywords, then anything but a newline up to `)`.
pub open spec fn paren_match(s: Seq<char>, p: int) -> Option<int> {
    if 0 <= p < s.len() && s[p] == '(' && (match_at(s, kw_with(), p + 1) || match_at(
        s,
        kw_feat(),
        p + 1,
    )) {
        close_scan(s, p + 5)
    } else {
        None
    }
}

/// End (exclusive) of a feature annotation starting at `i`: an optional
/// space, then the parenthesized segment.
pub open spec fn feature_match(s: Seq<char>, i: int) -> Option<int> {
    if 0 <= i < s.len() && s[i] == ' ' && paren_match(s, i + 1) is Some {
        paren_match(s, i + 1)
    } else {
        paren_match(s, i)
    }
}

/// `s` with its first feature annotation, if any, removed.
pub open spec fn strip_feature_from(s: Seq<char>, i: int) -> Seq<char>
    decreases s.len() - i,
{
    if i < 0 || i >= s.len() {
        Seq::empty()
    } else {
        match feature_match(s, i) {
            Some(e) => if i < e <= s.len() {
                s.subrange(e, s.len() as int)
            } else {
                Seq::empty()
            },
            None => seq![s[i]] + strip_feature_from(s, i + 1),
        }
    }
}

pub open spec fn strip_feature(s: Seq<char>) -> Seq<char> {
    strip_feature_from(s, 0)
}

/// A character the word-separator convention rewrites.
pub open spec fn is_sep_char(c: char) -> bool {
    c == '_' || c == '-' || c == ' '
}

/// Every apostrophe replaced by `rep` (empty to strip them).
pub open spec fn subst_apostrophe_from(s: Seq<char>, rep: Seq<char>, i: int) -> Seq<char>
    decreases s.len() - i,
{
    if i < 0 || i >= s.len() {
        Seq::empty()
    } else if s[i] == '\'' {
        rep + subst_apostrophe_from(s, rep, i + 1)
    } else {
        seq![s[i]] + subst_apostrophe_from(s, rep, i + 1)
    }
}

pub open spec fn subst_apostrophe(s: Seq<char>, rep: Seq<char>) -> Seq<char> {
    subst_apostrophe_from(s, rep, 0)
}

/// Every underscore, hyphen and space replaced by `rep`.
pub open spec fn subst_separators_from(s: Seq<char>, rep: Seq<char>, i: int) -> Seq<char>
    decreases s.len() - i,
{
    if i < 0 || i >= s.len() {
        Seq::empty()
    } else if is_sep_char(s[i]) {
        rep + subst_separators_from(s, rep, i + 1)
    } else {
        seq![s[i]] + subst_separators_from(s, rep, i + 1)
    }
}

pub open spec fn subst_separators(s: Seq<char>, rep: Seq<char>) -> Seq<char> {
    subst_separators_from(s, rep, 0)
}

pub open spec fn artist_placeholder() -> Seq<char> {
    seq!['%', 'a', 'r', 't', 'i', 's', 't', '%']
}

pub open spec fn title_placeholder() -> Seq<char> {
    seq!['%', 't', 'i', 't', 'l', 'e', '%']
}

/// A name as it appears in a URL: apostrophes stripped or replaced by the
/// separator, then underscores, hyphens and spaces replaced by it.
pub open spec fn transform_name(s: Seq<char>, sep: Seq<char>, apostrophe_sep: bool) -> Seq<char> {
    subst_separators(
        subst_apostrophe(
            s,
            if apostrophe_sep {
                sep
            } else {
                Seq::empty()
            },
        ),
        sep,
    )
}

/// The request URL: the template with `%artist%` replaced by the
/// transformed artist, then `%title%` by the transformed title (with the
/// title's feature annotation removed first).
pub open spec fn create_url_spec(
    template: Seq<char>,
    sep: Seq<char>,
    apostrophe_sep: bool,
    title: Seq<char>,
    artist: Seq<char>,
) -> Seq<char> {
    let t = transform_name(strip_feature(title), sep, apostrophe_sep);
    let a = transform_name(artist, sep, apostrophe_sep);
    replace_all(replace_all(template, artist_placeholder(), a), title_placeholder(), t)
}

fn close_scan_exec(s: &Vec<char>, q: usize) -> (r: Option<usize>)
    requires
        q <= s@.len(),
    ensures
        match r {
            Some(e) => close_scan(s@, q as int) == Some(e as int) && q < e <= s@.len(),
            None => close_scan(s@, q as int) is None,
        },
{
    let n = s.len();
    let mut k: usize = q;
    loop
        invariant
            n == s@.len(),
            q <= k <= n,
            close_scan(s@, q as int) == close_scan(s@, k as int),
        decreases n - k,
    {
        if k == n {
            return None;
        }
        if s[k] == ')' {
            return Some(k + 1);
        }
        if s[k] == '\n' {
            return None;
        }
        k += 1;
    }
}

fn paren_match_exec(s: &Vec<char>, p: usize, wp: &Vec<char>, fp: &Vec<char>) -> (r: Option<usize>)
    requires
        p <= s@.len(),
        wp@ == kw_with(),
        fp@ == kw_feat(),
    ensures
        match r {
            Some(e) => paren_match(s@, p as int) == Some(e as int) && p < e <= s@.len(),
            None => paren_match(s@, p as int) is None,
        },
{
    let n = s.len();
    if p < n && s[p] == '(' {
        if is_match(s, wp, p + 1) || is_match(s, fp, p + 1) {
            // The keyword fits, so the scan start is in bounds.
            assert(p + 5 <= n);
            return close_scan_exec(s, p + 5);
        }
    }
    None
}

fn feature_match_exec(s: &Vec<char>, i: usize, wp: &Vec<char>, fp: &Vec<char>) -> (r: Option<
    usize,
>)
    requires
        i < s@.len(),
        wp@ == kw_with(),
        fp@ == kw_feat(),
    ensures
        match r {
            Some(e) => feature_match(s@, i as int) == Some(e as int) && i < e <= s@.len(),
            None => feature_match(s@, i as int) is None,
        },
{
    let n = s.len();
    if s[i] == ' ' {
        match paren_match_exec(s, i + 1, wp, fp) {
            Some(e) => {
                return Some(e);
            },
            None => {},
        }
    }
    paren_match_exec(s, i, wp, fp)
}

/// Remove the first feature annotation of `s`, if any.
pub fn strip_feature_vec(s: &Vec<char>) -> (out: Vec<char>)
    ensures
        out@ == strip_feature(s@),
{
    let wp = str_to_chars("with");
    proof {
        reveal_strlit("with");
    }
    assert(wp@ =~= kw_with());
    let fp = str_to_chars("feat");
    proof {
        reveal_strlit("feat");
    }
    assert(fp@ =~= kw_feat());
    let n = s.len();
    let mut out: Vec<char> = Vec::new();
    let mut i: usize = 0;
    while i < n
        invariant
            n == s@.len(),
            0 <= i <= n,
            wp@ == kw_with(),
            fp@ == kw_feat(),
            strip_feature(s@) == out@ + strip_feature_from(s@, i as int),
        decreases n - i,
    {
        match feature_match_exec(s, i, &wp, &fp) {
            Some(e) => {
                // Copy the remainder unchanged: only the first annotation is
                // removed.
                let ghost pre = out@;
                let mut j: usize = e;
                while j < n
                    invariant
                        n == s@.len(),
                        e <= j <= n,
                        out@ == pre + s@.subrange(e as int, j as int),
                    decreases n - j,
                {
                    out.push(s[j]);
                    assert(out@ =~= pre + s@.subrange(e as int, j + 1));
                    j += 1;
                }
                assert(out@ =~= pre + strip_feature_from(s@, i as int));
                return out;
            },
            None => {
                proof {
                    assert(out@ + (seq![s@[i as int]] + strip_feature_from(s@, i + 1)) =~= (out@
                        + seq![s@[i as int]]) + strip_feature_from(s@, i + 1));
                }
                out.push(s[i]);
                i += 1;
            },
        }
    }
    assert(out@ + strip_feature_from(s@, i as int) =~= out@);
    out
}

/// Replace every apostrophe of `s` by `rep`.
pub fn subst_apostrophe_vec(s: &Vec<char>, rep: &Vec<char>) -> (out: Vec<char>)
    ensures
        out@ == subst_apostrophe(s@, rep@),
{
    let n = s.len();
    let mut out: Vec<char> = Vec::new();
    let mut i: usize = 0;
    while i < n
        invariant
            n == s@.len(),
            0 <= i <= n,
            subst_apostrophe(s@, rep@) == out@ + subst_apostrophe_from(s@, rep@, i as int),
        decreases n - i,
    {
        if s[i] == '\'' {
            proof {
                assert(out@ + (rep@ + subst_apostrophe_from(s@, rep@, i + 1)) =~= (out@ + rep@)
                    + subst_apostrophe_from(s@, rep@, i + 1));
            }
            push_all(&mut out, rep);
        } else {
            proof {
                assert(out@ + (seq![s@[i as int]] + subst_apostrophe_from(s@, rep@, i + 1)) =~= (
                out@ + seq![s@[i as int]]) + subst_apostrophe_from(s@, rep@, i + 1));
            }
            out.push(s[i]);
        }
        i += 1;
    }
    assert(out@ + subst_apostrophe_from(s@, rep@, i as int) =~= out@);
    out
}

/// Replace every underscore, hyphen and space of `s` by `rep`.
pub fn subst_separators_vec(s: &Vec<char>, rep: &Vec<char>) -> (out: Vec<char>)
    ensures
        out@ == subst_separators(s@, rep@),
{
    let n = s.len();
    let mut out: Vec<char> = Vec::new();
    let mut i: usize = 0;
    while i < n
        invariant
            n == s@.len(),
            0 <= i <= n,
            subst_separators(s@, rep@) == out@ + subst_separators_from(s@, rep@, i as int),
        decreases n - i,
    {
        let c = s[i];
        if c == '_' || c == '-' || c == ' ' {
            proof {
                assert(out@ + (rep@ + subst_separators_from(s@, rep@, i + 1)) =~= (out@ + rep@)
                    + subst_separators_from(s@, rep@, i + 1));
            }
            push_all(&mut out, rep);
        } else {
            proof {
                assert(out@ + (seq![s@[i as int]] + subst_separators_from(s@, rep@, i + 1)) =~= (
                out@ + seq![s@[i as int]]) + subst_separators_from(s@, rep@, i + 1));
            }
            out.push(c);
        }
        i += 1;
    }
    assert(out@ + subst_separators_from(s@, rep@, i as int) =~= out@);
    out
}

/// Build the request URL for one source from its template, separator and
/// apostrophe conventions and the song's title and artist.
pub fn create_url(
    template: &str,
    separator: &str,
    apostrophe_needs_sep: bool,
    title: &str,
    artist: &str,
) -> (r: String)
    ensures
        r@ == create_url_spec(template@, separator@, apostrophe_needs_sep, title@, artist@),
{
    let tv = str_to_chars(template);
    let sep = str_to_chars(separator);
    let ti = str_to_chars(title);
    let ar = str_to_chars(artist);
    let empty: Vec<char> = Vec::new();
    let apos_rep: &Vec<char> = if apostrophe_needs_sep {
        &sep
    } else {
        &empty
    };
    let t1 = strip_feature_vec(&ti);
    let t2 = subst_apostrophe_vec(&t1, apos_rep);
    let t3 = subst_separators_vec(&t2, &sep);
    let a2 = subst_apostrophe_vec(&ar, apos_rep);
    let a3 = subst_separators_vec(&a2, &sep);
    let ap = str_to_chars("%artist%");
    proof {
        reveal_strlit("%artist%");
    }
    assert(ap@ =~= artist_placeholder());
    let tp = str_to_chars("%title%");
    proof {
        reveal_strlit("%title%");
    }
    assert(tp@ =~= title_placeholder());
    let u1 = replace_literal(&tv, &ap, &a3);
    let u2 = replace_literal(&u1, &tp, &t3);
    chars_to_string(&u2)
}

} // verus!
