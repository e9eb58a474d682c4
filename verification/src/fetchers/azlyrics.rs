//! The AZLyrics adapter: no word separator, apostrophes stripped, lyrics
//! between the site's disclaimer comment and the next closing div.

use vstd::prelude::*;
use vstd::string::StringExecFns;
use crate::extract::ExtractionPattern;
use crate::fetcher::ApostropheHandling;
use crate::fetcher::FetcherType;
use crate::fetcher::SourceDescriptor;
use crate::fetcher::descriptor_matches;
use crate::fetcher::steps_spec;
use crate::scan::str_to_chars;

verus! {

pub struct AZLyricsFetcher;

impl AZLyricsFetcher {
    /// The provider's descriptor.
    pub fn descriptor() -> (d: SourceDescriptor)
        ensures
            descriptor_matches(&d, FetcherType::AZLyrics),
    {
        let mut steps: Vec<Vec<Vec<char>>> = Vec::new();
        let mut s0: Vec<Vec<char>> = Vec::new();
        s0.push(str_to_chars(
            "<!-- Usage of azlyrics.com content by any third-party lyrics provider is prohibited by our licensing agreement. Sorry about that. -->",
        ));
        steps.push(s0);
        let pattern = ExtractionPattern { steps, end: str_to_chars("</div>") };
        proof {
            reveal_strlit(
                "<!-- Usage of azlyrics.com content by any third-party lyrics provider is prohibited by our licensing agreement. Sorry about that. -->",
            );
            reveal_strlit("</div>");
            assert(pattern.steps.deep_view() =~~= steps_spec(FetcherType::AZLyrics));
            assert(pattern.wf());
        }
        SourceDescriptor {
            identifier: String::from_str("azlyrics"),
            display_name: String::from_str("AZLyrics"),
            word_separator: String::from_str(""),
            apostrophe: ApostropheHandling::Strip,
            url_template: String::from_str("https://azlyrics.com/lyrics/%artist%/%title%.html"),
            pattern,
            needs_post_processing: true,
        }
    }
}

} // verus!
