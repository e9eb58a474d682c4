//! The Jah Lyrics adapter: hyphen-separated names, apostrophes stripped,
//! lyrics between the song header block and the disclaimer paragraph.

use vstd::prelude::*;
use vstd::string::StringExecFns;
use crate::extract::ExtractionPattern;
use crate::fetcher::ApostropheHandling;
use crate::fetcher::FetcherType;
use crate::fetcher::SourceDescriptor;
use crate::fetcher::descriptor_matches;
use crate::fetcher::steps_spec;
use crate::scan::str_to_chars;

verus! {

pub struct JahLyricsFetcher;

impl JahLyricsFetcher {
    /// The provider's descriptor.
    pub fn descriptor() -> (d: SourceDescriptor)
        ensures
            descriptor_matches(&d, FetcherType::JahLyrics),
    {
        let mut steps: Vec<Vec<Vec<char>>> = Vec::new();
        let mut s0: Vec<Vec<char>> = Vec::new();
        s0.push(str_to_chars("<div class=\"song-header\">"));
        steps.push(s0);
        let mut s1: Vec<Vec<char>> = Vec::new();
        s1.push(str_to_chars("</div>"));
        steps.push(s1);
        let pattern = ExtractionPattern { steps, end: str_to_chars("<p class=\"disclaimer\">") };
        proof {
            reveal_strlit("<div class=\"song-header\">");
            reveal_strlit("</div>");
            reveal_strlit("<p class=\"disclaimer\">");
            assert(pattern.steps.deep_view() =~~= steps_spec(FetcherType::JahLyrics));
            assert(pattern.wf());
        }
        SourceDescriptor {
            identifier: String::from_str("jahlyrics"),
            display_name: String::from_str("Jah Lyrics"),
            word_separator: String::from_str("-"),
            apostrophe: ApostropheHandling::Strip,
            url_template: String::from_str("https://jah-lyrics.com/song/%artist%-%title%"),
            pattern,
            needs_post_processing: true,
        }
    }
}

} // verus!
