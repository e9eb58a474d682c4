//! The extraction engine.  Each source locates its lyrics with a pattern:
//! a sequence of steps, each a set of alternative literal markers (the
//! earliest occurrence wins), followed by a capture that runs up to the
//! nearest end literal.  Matching repeats after each capture and every
//! captured span is concatenated, in order of appearance.

use vstd::prelude::*;
use crate::scan::find_from;
use crate::scan::find_sub;
use crate::scan::lemma_find_from;

verus! {

/// `(start, end)` of the earliest occurrence at or after `i` of any
/// literal in `alts`; row order breaks position ties.
pub open spec fn step_find(s: Seq<char>, alts: Seq<Seq<char>>, i: int) -> Option<(int, int)>
    decreases alts.len(),
{
    if alts.len() == 0 {
        None
    } else {
        let first = find_from(s, alts[0], i);
        let rest = step_find(s, alts.drop_first(), i);
        match (first, rest) {
            (None, None) => None,
            (Some(j), None) => Some((j, j + alts[0].len() as int)),
            (None, Some(pr)) => Some(pr),
            (Some(j), Some(pr)) => if j <= pr.0 {
                Some((j, j + alts[0].len() as int))
            } else {
                Some(pr)
            },
        }
    }
}

pub proof fn lemma_step_find(s: Seq<char>, alts: Seq<Seq<char>>, i: int)
    requires
        0 <= i <= s.len(),
    ensures
        step_find(s, alts, i) matches Some(p) ==> i <= p.0 <= p.1 <= s.len(),
    decreases alts.len(),
{
    if alts.len() > 0 {
        lemma_find_from(s, alts[0], i);
        lemma_step_find(s, alts.drop_first(), i);
    }
}

/// Position after all steps have matched in order, each from where the
/// previous one ended.
pub open spec fn chain_find(s: Seq<char>, steps: Seq<Seq<Seq<char>>>, i: int) -> Option<int>
    decreases steps.len(),
{
    if steps.len() == 0 {
        Some(i)
    } else {
        match step_find(s, steps[0], i) {
            None => None,
            Some(p) => chain_find(s, steps.drop_first(), p.1),
        }
    }
}

pub proof fn lemma_chain_find(s: Seq<char>, steps: Seq<Seq<Seq<char>>>, i: int)
    requires
        0 <= i <= s.len(),
    ensures
        chain_find(s, steps, i) matches Some(c) ==> i <= c <= s.len(),
    decreases steps.len(),
{
    if steps.len() > 0 {
        lemma_step_find(s, steps[0], i);
        match step_find(s, steps[0], i) {
            Some(p) => {
                lemma_chain_find(s, steps.drop_first(), p.1);
            },
            None => {},
        }
    }
}

/// Concatenation of every captured span from `i` on: after each chain of
/// step markers, the text up to the nearest end literal, resuming after
/// that literal.
pub open spec fn extract_from(
    s: Seq<char>,
    steps: Seq<Seq<Seq<char>>>,
    end: Seq<char>,
    i: int,
) -> Seq<char>
    decreases s.len() - i,
    when 0 <= i <= s.len() && end.len() >= 1
    via extract_from_decreases
{
    if i >= s.len() {
        Seq::empty()
    } else {
        match chain_find(s, steps, i) {
            None => Seq::empty(),
            Some(c) => match find_from(s, end, c) {
                None => Seq::empty(),
                Some(e) => s.subrange(c, e) + extract_from(s, steps, end, e + end.len()),
            },
        }
    }
}

#[via_fn]
proof fn extract_from_decreases(s: Seq<char>, steps: Seq<Seq<Seq<char>>>, end: Seq<char>, i: int) {
    if 0 <= i < s.len() {
        lemma_chain_find(s, steps, i);
        match chain_find(s, steps, i) {
            Some(c) => {
                lemma_find_from(s, end, c);
            },
            None => {},
        }
    }
}

/// A source's extraction pattern, as runtime data.
pub struct ExtractionPattern {
    pub steps: Vec<Vec<Vec<char>>>,
    pub end: Vec<char>,
}

impl ExtractionPattern {
    /// The steps as the specification sees them.
    pub open spec fn steps_view(&self) -> Seq<Seq<Seq<char>>> {
        self.steps.deep_view()
    }

    /// Every literal non-empty, the end literal too: what the matching
    /// scans rely on.
    pub open spec fn wf(&self) -> bool {
        &&& self.end@.len() >= 1
        &&& forall|a: int, k: int|
            0 <= a < self.steps@.len() && 0 <= k < self.steps@[a]@.len() ==> ((#[trigger] self.steps@[a]@[k])@.len() >= 1)
    }

    /// What the pattern captures in `s`.
    pub open spec fn captures(&self, s: Seq<char>) -> Seq<char> {
        extract_from(s, self.steps_view(), self.end@, 0)
    }
}

/// Earliest match among `alts[k..]` at or after `i`.
fn step_find_exec(s: &Vec<char>, alts: &Vec<Vec<char>>, k: usize, i: usize) -> (r: Option<
    (usize, usize),
>)
    requires
        i <= s@.len(),
        k <= alts@.len(),
        forall|a: int| 0 <= a < alts@.len() ==> ((#[trigger] alts@[a])@.len() >= 1),
    ensures
        match r {
            Some(p) => step_find(s@, alts.deep_view().skip(k as int), i as int) == Some(
                (p.0 as int, p.1 as int),
            ) && i <= p.0 <= p.1 <= s@.len(),
            None => step_find(s@, alts.deep_view().skip(k as int), i as int) is None,
        },
    decreases alts@.len() - k,
{
    let n = s.len();
    if k == alts.len() {
        assert(alts.deep_view().skip(k as int) =~= Seq::<Seq<char>>::empty());
        return None;
    }
    proof {
        assert(alts.deep_view().skip(k as int).drop_first() =~= alts.deep_view().skip(k + 1));
        assert(alts.deep_view().skip(k as int)[0] == alts.deep_view()[k as int]);
        assert(alts.deep_view()[k as int] =~= (alts@[k as int])@);
    }
    let first = find_sub(s, &alts[k], i);
    let rest = step_find_exec(s, alts, k + 1, i);
    match (first, rest) {
        (None, None) => None,
        (Some(j), None) => Some((j, j + alts[k].len())),
        (None, Some(p)) => Some(p),
        (Some(j), Some(p)) => {
            if j <= p.0 {
                Some((j, j + alts[k].len()))
            } else {
                Some(p)
            }
        },
    }
}

/// Concatenation of everything `pat` captures in `s`.
pub fn extract_pattern(pat: &ExtractionPattern, s: &Vec<char>) -> (out: Vec<char>)
    requires
        pat.wf(),
    ensures
        out@ == pat.captures(s@),
{
    let ghost stepsv = pat.steps.deep_view();
    let n = s.len();
    let mut out: Vec<char> = Vec::new();
    let mut i: usize = 0;
    while i < n
        invariant
            n == s@.len(),
            0 <= i <= n,
            pat.wf(),
            stepsv == pat.steps.deep_view(),
            pat.captures(s@) == out@ + extract_from(s@, stepsv, pat.end@, i as int),
        decreases n - i,
    {
        // Run the chain of steps from `i`.
        assert(stepsv.skip(0) =~= stepsv);
        let mut pos: usize = i;
        let mut t: usize = 0;
        let mut chain_ok = true;
        while t < pat.steps.len()
            invariant
                n == s@.len(),
                i <= n,
                pat.wf(),
                stepsv == pat.steps.deep_view(),
                0 <= t <= stepsv.len(),
                i <= pos <= n,
                chain_ok ==> chain_find(s@, stepsv, i as int) == chain_find(
                    s@,
                    stepsv.skip(t as int),
                    pos as int,
                ),
                !chain_ok ==> chain_find(s@, stepsv, i as int) is None,
            decreases stepsv.len() - t,
        {
            proof {
                assert(stepsv.skip(t as int).drop_first() =~= stepsv.skip(t + 1));
                assert(stepsv.skip(t as int)[0] == stepsv[t as int]);
                assert forall|a: int|
                    0 <= a < (pat.steps@[t as int])@.len() implies ((#[trigger] (
                pat.steps@[t as int])@[a])@.len() >= 1) by {
                    assert((pat.steps@[t as int])@[a] == pat.steps@[t as int]@[a]);
                }
            }
            match step_find_exec(s, &pat.steps[t], 0, pos) {
                Some(p) => {
                    proof {
                        assert((pat.steps@[t as int]).deep_view().skip(0) =~= (
                        pat.steps@[t as int]).deep_view());
                        assert(stepsv[t as int] == (pat.steps@[t as int]).deep_view());
                    }
                    pos = p.1;
                    t += 1;
                },
                None => {
                    proof {
                        assert((pat.steps@[t as int]).deep_view().skip(0) =~= (
                        pat.steps@[t as int]).deep_view());
                        assert(stepsv[t as int] == (pat.steps@[t as int]).deep_view());
                    }
                    chain_ok = false;
                    t = pat.steps.len();
                },
            }
        }
        if chain_ok {
            assert(stepsv.skip(stepsv.len() as int) =~= Seq::<Seq<Seq<char>>>::empty());
            assert(chain_find(s@, stepsv, i as int) == Some(pos as int));
            match find_sub(s, &pat.end, pos) {
                Some(e) => {
                    // Copy the captured span.
                    let ghost pre = out@;
                    let mut j: usize = pos;
                    while j < e
                        invariant
                            n == s@.len(),
                            pos <= j <= e <= n,
                            out@ == pre + s@.subrange(pos as int, j as int),
                        decreases e - j,
                    {
                        out.push(s[j]);
                        assert(out@ =~= pre + s@.subrange(pos as int, j + 1));
                        j += 1;
                    }
                    proof {
                        assert(pre + (s@.subrange(pos as int, e as int) + extract_from(
                            s@,
                            stepsv,
                            pat.end@,
                            e + pat.end@.len(),
                        )) =~= (pre + s@.subrange(pos as int, e as int)) + extract_from(
                            s@,
                            stepsv,
                            pat.end@,
                            e + pat.end@.len(),
                        ));
                    }
                    i = e + pat.end.len();
                },
                None => {
                    // No end literal any more: nothing further captures.
                    assert(extract_from(s@, stepsv, pat.end@, i as int) =~= Seq::<char>::empty());
                    i = n;
                },
            }
        } else {
            // The chain no longer matches: nothing further captures.
            assert(extract_from(s@, stepsv, pat.end@, i as int) =~= Seq::<char>::empty());
            i = n;
        }
    }
    assert(out@ + extract_from(s@, stepsv, pat.end@, i as int) =~= out@);
    out
}

} // verus!
