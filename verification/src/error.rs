//! Failure reasons.  Per-attempt failures (`EmptyResponse`, `NoMatches`)
//! are swallowed by the orchestrator, which then moves on to the next
//! source; the others end a run.

use vstd::prelude::*;
use vstd::string::StringExecFns;

verus! {

#[derive(Debug, Clone, PartialEq, Eq)]
pub enum Error {
    /// Every configured source was tried and none produced lyrics.
    NoLyrics,
    /// A source returned an empty response body.
    EmptyResponse,
    /// A source's extraction pattern matched nothing in the response.
    NoMatches,
    /// The configuration names source identifiers outside the known set;
    /// the payload lists every offending identifier and the valid keys.
    BadFetcher(String),
    /// A scraped fragment holds a malformed numeric character reference.
    BadCharReference,
}

impl Error {
    /// A short description of the failure.  Exhaustion and an empty
    /// response share one text: either way the fetchers yielded nothing.
    pub fn message(&self) -> (m: String)
        ensures
            match self {
                Error::NoLyrics => m@ == "The lyrics fetcher returned an empty string"@,
                Error::EmptyResponse => m@ == "The lyrics fetcher returned an empty string"@,
                Error::NoMatches => m@ == "No match found in fetcher's output"@,
                Error::BadFetcher(keys) => m@ == "Unknown fetcher(s): "@ + keys@,
                Error::BadCharReference => m@
                    == "Malformed numeric character reference in fragment"@,
            },
    {
        match self {
            Error::NoLyrics => String::from_str("The lyrics fetcher returned an empty string"),
            Error::EmptyResponse => String::from_str(
                "The lyrics fetcher returned an empty string",
            ),
            Error::NoMatches => String::from_str("No match found in fetcher's output"),
            Error::BadFetcher(keys) => String::from_str("Unknown fetcher(s): ").concat(
                keys.as_str(),
            ),
            Error::BadCharReference => String::from_str(
                "Malformed numeric character reference in fragment",
            ),
        }
    }
}

} // verus!
