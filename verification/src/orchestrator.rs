//! The fetch orchestrator.  A session walks the configured sources
//! strictly in order, one outstanding request at a time: it names the
//! source to try next, the caller performs that source's request and
//! hands the body (or the transport failure) back, and the session either
//! records the lyrics — after which no further source is asked for — or
//! moves on.  When the list runs out without a success the run fails with
//! the terminal no-lyrics error.

use vstd::prelude::*;
use crate::error::Error;
use crate::fetcher::bad_fetcher_payload;
use crate::fetcher::bad_keys_payload;
use crate::fetcher::fetcher_of_id;
use crate::fetcher::find_unknowns;
use crate::fetcher::is_known_fetcher;
use crate::fetcher::lemma_no_unknowns;
use crate::fetcher::unknowns_of;
use crate::fetcher::url_spec;
use crate::fetchers::fetch;
use crate::fetchers::fetch_spec;
use crate::fetchers::request_url;

verus! {

/// One fetch run over an ordered, validated source list.
pub struct FetchSession {
    pub sources: Vec<String>,
    pub next: usize,
    pub found: Option<String>,
}

impl FetchSession {
    /// The session invariant: the position lies within the list and every
    /// identifier names a known provider.
    pub open spec fn wf(&self) -> bool {
        &&& self.next <= self.sources@.len()
        &&& forall|k: int|
            0 <= k < self.sources@.len() ==> is_known_fetcher((#[trigger] self.sources@[k])@)
    }

    /// The identifier the session will try next: none once lyrics were
    /// found or the list is exhausted.
    pub open spec fn spec_pending(&self) -> Option<Seq<char>> {
        if self.found is Some {
            None
        } else if self.next < self.sources@.len() {
            Some(self.sources@[self.next as int]@)
        } else {
            None
        }
    }

    /// The run's result: the recorded lyrics, or the terminal no-lyrics
    /// failure.
    pub open spec fn spec_outcome(&self) -> Result<Seq<char>, Error> {
        match self.found {
            Some(ly) => Ok(ly@),
            None => Err(Error::NoLyrics),
        }
    }

    /// Start a run over `sources`, in order.  Unknown identifiers are a
    /// fatal configuration error, all reported before any fetch.
    pub fn new(sources: Vec<String>) -> (r: Result<FetchSession, Error>)
        ensures
            match r {
                Ok(s) => {
                    &&& unknowns_of(sources.deep_view()).len() == 0
                    &&& s.wf()
                    &&& s.sources@ == sources@
                    &&& s.next == 0
                    &&& s.found is None
                },
                Err(e) => e matches Error::BadFetcher(m) && unknowns_of(sources.deep_view()).len()
                    > 0 && m@ == bad_fetcher_payload(unknowns_of(sources.deep_view())),
            },
    {
        let bad = find_unknowns(&sources);
        if bad.len() > 0 {
            return Err(Error::BadFetcher(bad_keys_payload(&bad)));
        }
        proof {
            lemma_no_unknowns(sources.deep_view(), 0);
            assert forall|k: int| 0 <= k < sources@.len() implies is_known_fetcher(
                (#[trigger] sources@[k])@,
            ) by {
                assert(sources.deep_view()[k] == sources@[k]@);
            }
        }
        Ok(FetchSession { sources, next: 0, found: None })
    }

    /// The identifier to try next.
    pub fn pending(&self) -> (r: Option<String>)
        requires
            self.wf(),
        ensures
            match r {
                Some(id) => self.spec_pending() == Some(id@),
                None => self.spec_pending() is None,
            },
    {
        if self.found.is_some() {
            return None;
        }
        if self.next < self.sources.len() {
            Some(self.sources[self.next].clone())
        } else {
            None
        }
    }

    /// The URL the pending source is to be asked, if one is pending.
    pub fn pending_url(&self, title: &str, artist: &str) -> (r: Option<String>)
        requires
            self.wf(),
        ensures
            r is Some <==> self.spec_pending() is Some,
            r is Some ==> r->Some_0@ == url_spec(
                fetcher_of_id(self.spec_pending()->Some_0)->Some_0,
                title@,
                artist@,
            ),
    {
        match self.pending() {
            Some(id) => Some(request_url(id.as_str(), title, artist)),
            None => None,
        }
    }

    /// Feed back what the pending source's request produced — `None`
    /// marks a transport failure.  A successful attempt records the
    /// lyrics; any failure moves the session to the next source.
    pub fn submit(&mut self, response: Option<&str>)
        requires
            old(self).wf(),
            old(self).spec_pending() is Some,
        ensures
            final(self).wf(),
            final(self).sources == old(self).sources,
            ({
                let f = fetcher_of_id(old(self).spec_pending()->Some_0)->Some_0;
                match response {
                    Some(body) => match fetch_spec(f, body@) {
                        Ok(t) => final(self).found matches Some(ly) && ly@ == t && final(self).next
                            == old(self).next,
                        Err(_) => final(self).found is None && final(self).next == old(self).next
                            + 1,
                    },
                    None => final(self).found is None && final(self).next == old(self).next + 1,
                }
            }),
    {
        let m = self.sources.len();
        assert(self.next < m);
        match response {
            Some(body) => {
                let id = self.sources[self.next].clone();
                match fetch(id.as_str(), body) {
                    Ok(ly) => {
                        self.found = Some(ly);
                    },
                    Err(_) => {
                        self.next = self.next + 1;
                    },
                }
            },
            None => {
                self.next = self.next + 1;
            },
        }
    }

    /// The run's result, once no source is pending.
    pub fn outcome(&self) -> (r: Result<String, Error>)
        requires
            self.wf(),
            self.spec_pending() is None,
        ensures
            match r {
                Ok(s) => self.spec_outcome() == Ok::<Seq<char>, Error>(s@),
                Err(e) => self.spec_outcome() == Err::<Seq<char>, Error>(e) && e
                    == Error::NoLyrics,
            },
    {
        match &self.found {
            Some(ly) => Ok(ly.clone()),
            None => Err(Error::NoLyrics),
        }
    }
}

/// Short-circuit: once an attempt has succeeded, the session asks for no
/// further source, whatever still stands in the list — later sources are
/// never fetched.
pub proof fn lemma_short_circuit(s: &FetchSession)
    requires
        s.found is Some,
    ensures
        s.spec_pending() is None,
{
}

/// Exhaustion: when every configured source was tried and none succeeded,
/// nothing is pending and the run's outcome is the no-lyrics failure.
pub proof fn lemma_exhaustion(s: &FetchSession)
    requires
        s.found is None,
        s.next == s.sources@.len(),
    ensures
        s.spec_pending() is None,
        s.spec_outcome() == Err::<Seq<char>, Error>(Error::NoLyrics),
{
}

} // verus!
