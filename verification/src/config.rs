//! The run configuration: free-form flags and the ordered list of source
//! identifiers to try.  Identifiers are lower-cased and validated against
//! the known set before any fetch; an unknown one is a fatal
//! configuration error.

use vstd::prelude::*;
use vstd::string::StringExecFns;
use crate::error::Error;
use crate::fetcher::bad_fetcher_payload;
use crate::fetcher::bad_keys_payload;
use crate::fetcher::find_unknowns;
use crate::fetcher::known_fetchers;
use crate::fetcher::known_ids;
use crate::fetcher::unknowns_of;
use crate::scan::char_from_u32;
use crate::scan::chars_to_string;
use crate::scan::str_to_chars;

verus! {

/// ASCII lower-casing of one character.
pub open spec fn lower_char(c: char) -> char {
    if 'A' <= c && c <= 'Z' {
        ((c as int) + 32) as char
    } else {
        c
    }
}

pub open spec fn ascii_lower(s: Seq<char>) -> Seq<char> {
    s.map_values(|c: char| lower_char(c))
}

/// A list of identifiers, each lower-cased.
pub open spec fn lower_ids(ids: Seq<Seq<char>>) -> Seq<Seq<char>> {
    ids.map_values(|s: Seq<char>| ascii_lower(s))
}

/// The identifiers of the default configuration: every known source, in
/// try order.
pub open spec fn default_ids() -> Seq<Seq<char>> {
    known_ids()
}

fn lower_char_c(c: char) -> (r: char)
    ensures
        r == lower_char(c),
{
    let u = c as u32;
    if 65 <= u && u <= 90 {
        match char_from_u32(u + 32) {
            Some(l) => l,
            None => {
                proof {
                    assert(false);
                }
                c
            },
        }
    } else {
        c
    }
}

/// ASCII-lower-case the characters of `s`.
pub fn ascii_lower_vec(s: &Vec<char>) -> (out: Vec<char>)
    ensures
        out@ == ascii_lower(s@),
{
    let n = s.len();
    let mut out: Vec<char> = Vec::new();
    let mut i: usize = 0;
    while i < n
        invariant
            n == s@.len(),
            0 <= i <= n,
            out@ == ascii_lower(s@.subrange(0, i as int)),
        decreases n - i,
    {
        let l = lower_char_c(s[i]);
        out.push(l);
        assert(out@ =~= ascii_lower(s@.subrange(0, i + 1)));
        i += 1;
    }
    assert(out@ =~= ascii_lower(s@));
    out
}

/// The run configuration.
pub struct Config {
    pub flags: String,
    pub fetchers: Vec<String>,
}

impl Default for Config {
    /// Empty flags; every known source, in the standard order.
    fn default() -> (c: Self)
        ensures
            c.flags@ == Seq::<char>::empty(),
            c.fetchers.deep_view() == default_ids(),
    {
        Config { flags: String::new(), fetchers: known_fetchers() }
    }
}

impl Config {
    /// Build a configuration from loaded parts: each identifier is
    /// lower-cased and held against the known set, and every unknown one
    /// is reported, with the valid keys.
    pub fn validated(flags: String, fetchers: Vec<String>) -> (r: Result<Config, Error>)
        ensures
            match r {
                Ok(c) => {
                    &&& unknowns_of(lower_ids(fetchers.deep_view())).len() == 0
                    &&& c.flags@ == flags@
                    &&& c.fetchers.deep_view() == lower_ids(fetchers.deep_view())
                },
                Err(e) => e matches Error::BadFetcher(m) && unknowns_of(
                    lower_ids(fetchers.deep_view()),
                ).len() > 0 && m@ == bad_fetcher_payload(
                    unknowns_of(lower_ids(fetchers.deep_view())),
                ),
            },
    {
        let ghost all = lower_ids(fetchers.deep_view());
        let n = fetchers.len();
        let mut lowered: Vec<String> = Vec::new();
        let mut i: usize = 0;
        while i < n
            invariant
                n == fetchers@.len(),
                0 <= i <= n,
                all == lower_ids(fetchers.deep_view()),
                lowered@.len() == i,
                lowered.deep_view() =~= all.subrange(0, i as int),
            decreases n - i,
        {
            let cv = str_to_chars(fetchers[i].as_str());
            let lo = ascii_lower_vec(&cv);
            let ls = chars_to_string(&lo);
            proof {
                assert(fetchers.deep_view()[i as int] == fetchers@[i as int]@);
                assert(all[i as int] == ascii_lower(fetchers.deep_view()[i as int]));
                assert(ls@ == all[i as int]);
            }
            let ghost prev = lowered@;
            let ghost prev_deep = lowered.deep_view();
            lowered.push(ls);
            proof {
                assert(lowered@ == prev.push(ls));
                assert forall|k: int| 0 <= k < i + 1 implies lowered.deep_view()[k]
                    == all.subrange(0, i + 1)[k] by {
                    assert(lowered.deep_view()[k] == lowered@[k]@);
                    if k < i {
                        assert(lowered@[k] == prev[k]);
                        assert(prev_deep[k] == prev[k]@);
                        assert(prev_deep[k] == all.subrange(0, i as int)[k]);
                    } else {
                        assert(lowered@[k] == ls);
                    }
                }
                assert(lowered.deep_view() =~= all.subrange(0, i + 1));
            }
            i += 1;
        }
        assert(all.subrange(0, n as int) =~= all);
        let bad = find_unknowns(&lowered);
        if bad.len() > 0 {
            return Err(Error::BadFetcher(bad_keys_payload(&bad)));
        }
        Ok(Config { flags, fetchers: lowered })
    }
}

} // verus!
