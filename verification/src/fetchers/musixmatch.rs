//! The Musixmatch adapter: hyphen-separated names, apostrophes replaced by
//! the separator, lyrics in per-line content spans that need no
//! post-processing.

use vstd::prelude::*;
use vstd::string::StringExecFns;
use crate::extract::ExtractionPattern;
use crate::fetcher::ApostropheHandling;
use crate::fetcher::FetcherType;
use crate::fetcher::SourceDescriptor;
use crate::fetcher::descriptor_matches;
use crate::fetcher::steps_spec;
use crate::scan::str_to_chars;

verus! {

pub struct MusixmatchFetcher;

impl MusixmatchFetcher {
    /// The provider's descriptor.
    pub fn descriptor() -> (d: SourceDescriptor)
        ensures
            descriptor_matches(&d, FetcherType::Musixmatch),
    {
        let mut steps: Vec<Vec<Vec<char>>> = Vec::new();
        let mut s0: Vec<Vec<char>> = Vec::new();
        s0.push(str_to_chars("<span class=\"lyrics__content__"));
        steps.push(s0);
        let mut s1: Vec<Vec<char>> = Vec::new();
        s1.push(str_to_chars(">"));
        steps.push(s1);
        let pattern = ExtractionPattern { steps, end: str_to_chars("</span>") };
        proof {
            reveal_strlit("<span class=\"lyrics__content__");
            reveal_strlit(">");
            reveal_strlit("</span>");
            assert(pattern.steps.deep_view() =~~= steps_spec(FetcherType::Musixmatch));
            assert(pattern.wf());
        }
        SourceDescriptor {
            identifier: String::from_str("musixmatch"),
            display_name: String::from_str("Musixmatch"),
            word_separator: String::from_str("-"),
            apostrophe: ApostropheHandling::ReplaceWithSeparator,
            url_template: String::from_str("https://www.musixmatch.com/lyrics/%artist%/%title%"),
            pattern,
            needs_post_processing: false,
        }
    }
}

} // verus!
