//! The Genius adapter: hyphen-separated names, apostrophes stripped,
//! lyrics inside a `lyrics` or `Lyrics__Container` div.

use vstd::prelude::*;
use vstd::string::StringExecFns;
use crate::extract::ExtractionPattern;
use crate::fetcher::ApostropheHandling;
use crate::fetcher::FetcherType;
use crate::fetcher::SourceDescriptor;
use crate::fetcher::descriptor_matches;
use crate::fetcher::steps_spec;
use crate::scan::str_to_chars;

verus! {

pub struct GeniusFetcher;

impl GeniusFetcher {
    /// The provider's descriptor.
    pub fn descriptor() -> (d: SourceDescriptor)
        ensures
            descriptor_matches(&d, FetcherType::Genius),
    {
        let mut steps: Vec<Vec<Vec<char>>> = Vec::new();
        let mut s0: Vec<Vec<char>> = Vec::new();
        s0.push(str_to_chars("<div"));
        steps.push(s0);
        let mut s1: Vec<Vec<char>> = Vec::new();
        s1.push(str_to_chars("class=\"lyrics"));
        s1.push(str_to_chars("class=\"Lyrics__Container"));
        steps.push(s1);
        let mut s2: Vec<Vec<char>> = Vec::new();
        s2.push(str_to_chars(">"));
        steps.push(s2);
        let pattern = ExtractionPattern { steps, end: str_to_chars("</div>") };
        proof {
            reveal_strlit("<div");
            reveal_strlit("class=\"lyrics");
            reveal_strlit("class=\"Lyrics__Container");
            reveal_strlit(">");
            reveal_strlit("</div>");
            assert(pattern.steps.deep_view() =~~= steps_spec(FetcherType::Genius));
            assert(pattern.wf());
        }
        SourceDescriptor {
            identifier: String::from_str("genius"),
            display_name: String::from_str("Genius"),
            word_separator: String::from_str("-"),
            apostrophe: ApostropheHandling::Strip,
            url_template: String::from_str("https://genius.com/%artist%-%title%-lyrics"),
            pattern,
            needs_post_processing: true,
        }
    }
}

} // verus!
