//! The per-provider adapters, the descriptor dispatch, and the shared
//! fetch routine that turns one provider's response body into lyrics.

pub mod azlyrics;
pub mod genius;
pub mod jahlyrics;
pub mod musixmatch;

pub use azlyrics::AZLyricsFetcher;
pub use genius::GeniusFetcher;
pub use jahlyrics::JahLyricsFetcher;
pub use musixmatch::MusixmatchFetcher;

use vstd::prelude::*;
use vstd::string::StringExecFns;
use crate::error::Error;
use crate::extract::extract_from;
use crate::extract::extract_pattern;
use crate::fetcher::FetcherType;
use crate::fetcher::SourceDescriptor;
use crate::fetcher::descriptor_matches;
use crate::fetcher::end_spec;
use crate::fetcher::fetcher_of_id;
use crate::fetcher::is_known_fetcher;
use crate::fetcher::post_spec;
use crate::fetcher::steps_spec;
use crate::fetcher::url_spec;
use crate::fetcher::ApostropheHandling;
use crate::scan::chars_to_string;
use crate::scan::str_to_chars;
use crate::text::normalize_spec;
use crate::text::normalize_vec;
use crate::text::remove_crlf;
use crate::text::remove_crlf_vec;
use crate::text::trim_spec;
use crate::text::trim_vec;
use crate::url::create_url;

verus! {

/// The provider `f`'s descriptor.
pub fn descriptor_for(f: &FetcherType) -> (d: SourceDescriptor)
    ensures
        descriptor_matches(&d, *f),
{
    match f {
        FetcherType::AZLyrics => AZLyricsFetcher::descriptor(),
        FetcherType::Genius => GeniusFetcher::descriptor(),
        FetcherType::JahLyrics => JahLyricsFetcher::descriptor(),
        FetcherType::Musixmatch => MusixmatchFetcher::descriptor(),
    }
}

/// The URL a provider is asked for a song.
pub fn request_url(fetcher: &str, title: &str, artist: &str) -> (r: String)
    requires
        is_known_fetcher(fetcher@),
    ensures
        r@ == url_spec(fetcher_of_id(fetcher@)->Some_0, title@, artist@),
{
    let f = match FetcherType::from_id(fetcher) {
        Some(f) => f,
        None => {
            proof {
                assert(false);
            }
            FetcherType::AZLyrics
        },
    };
    let d = descriptor_for(&f);
    create_url(
        d.url_template.as_str(),
        d.word_separator.as_str(),
        d.apostrophe == ApostropheHandling::ReplaceWithSeparator,
        title,
        artist,
    )
}

/// The outcome of one attempt, given the provider and the response body
/// its URL returned: empty bodies and pattern misses fail the attempt, a
/// captured fragment is post-processed when the provider needs it.
pub open spec fn fetch_spec(f: FetcherType, body: Seq<char>) -> Result<Seq<char>, Error> {
    if body.len() == 0 {
        Err(Error::EmptyResponse)
    } else {
        let raw = extract_from(trim_spec(body), steps_spec(f), end_spec(f), 0);
        if raw.len() == 0 {
            Err(Error::NoMatches)
        } else if !post_spec(f) {
            Ok(raw)
        } else {
            match normalize_spec(remove_crlf(raw)) {
                None => Err(Error::BadCharReference),
                Some(t) => Ok(t),
            }
        }
    }
}

/// Turn the response body of the named provider into lyrics, or say why
/// the attempt failed.
pub fn fetch(fetcher: &str, response: &str) -> (r: Result<String, Error>)
    requires
        is_known_fetcher(fetcher@),
    ensures
        ({
            let outcome = fetch_spec(fetcher_of_id(fetcher@)->Some_0, response@);
            match r {
                Ok(s) => outcome matches Ok(t) && s@ == t,
                Err(e) => outcome matches Err(e2) && e == e2,
            }
        }),
{
    let f = match FetcherType::from_id(fetcher) {
        Some(f) => f,
        None => {
            proof {
                assert(false);
            }
            FetcherType::AZLyrics
        },
    };
    let d = descriptor_for(&f);
    let rv = str_to_chars(response);
    if rv.len() == 0 {
        return Err(Error::EmptyResponse);
    }
    let trimmed = trim_vec(&rv);
    let raw = extract_pattern(&d.pattern, &trimmed);
    if raw.len() == 0 {
        return Err(Error::NoMatches);
    }
    if !d.needs_post_processing {
        return Ok(chars_to_string(&raw));
    }
    let cleaned = remove_crlf_vec(&raw);
    match normalize_vec(&cleaned) {
        Some(w) => Ok(chars_to_string(&w)),
        None => Err(Error::BadCharReference),
    }
}

/// The default post-processing step: drop raw line breaks (they would
/// defeat the break-tag conversion), then normalize the fragment in
/// place.  On a malformed numeric reference the input stays unchanged.
pub fn default_post_process(input: &mut String) -> (r: Result<(), Error>)
    ensures
        r is Ok <==> normalize_spec(remove_crlf(old(input)@)) is Some,
        r is Ok ==> final(input)@ == normalize_spec(remove_crlf(old(input)@))->Some_0,
        r is Err ==> final(input)@ == old(input)@ && r->Err_0 == Error::BadCharReference,
{
    let v = str_to_chars(input.as_str());
    let c = remove_crlf_vec(&v);
    match normalize_vec(&c) {
        Some(w) => {
            *input = chars_to_string(&w);
            Ok(())
        },
        None => Err(Error::BadCharReference),
    }
}

} // verus!
