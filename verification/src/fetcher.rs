//! The source model: the closed set of lyrics providers, and the
//! per-provider descriptor — identity, URL conventions, extraction pattern
//! and post-processing flag — that the fetch routine is driven by.

use vstd::prelude::*;
use vstd::string::StringExecFns;
use crate::extract::ExtractionPattern;
use crate::scan::chars_to_string;
use crate::scan::push_all;
use crate::scan::str_to_chars;
use crate::url::create_url_spec;

verus! {

/// The closed set of known lyrics providers.
#[derive(Clone, Copy, Debug, PartialEq, Eq, Structural)]
pub enum FetcherType {
    AZLyrics,
    Genius,
    JahLyrics,
    Musixmatch,
}

/// What happens to apostrophes when a name goes into a URL.
#[derive(Clone, Copy, Debug, PartialEq, Eq, Structural)]
pub enum ApostropheHandling {
    /// Remove them.
    Strip,
    /// Replace each with the source's word separator.
    ReplaceWithSeparator,
}

/// One provider's immutable description.
pub struct SourceDescriptor {
    pub identifier: String,
    pub display_name: String,
    pub word_separator: String,
    pub apostrophe: ApostropheHandling,
    pub url_template: String,
    pub pattern: ExtractionPattern,
    pub needs_post_processing: bool,
}

pub open spec fn id_spec(f: FetcherType) -> Seq<char> {
    match f {
        FetcherType::AZLyrics => "azlyrics"@,
        FetcherType::Genius => "genius"@,
        FetcherType::JahLyrics => "jahlyrics"@,
        FetcherType::Musixmatch => "musixmatch"@,
    }
}

pub open spec fn name_spec(f: FetcherType) -> Seq<char> {
    match f {
        FetcherType::AZLyrics => "AZLyrics"@,
        FetcherType::Genius => "Genius"@,
        FetcherType::JahLyrics => "Jah Lyrics"@,
        FetcherType::Musixmatch => "Musixmatch"@,
    }
}

pub open spec fn sep_spec(f: FetcherType) -> Seq<char> {
    match f {
        FetcherType::AZLyrics => ""@,
        FetcherType::Genius => "-"@,
        FetcherType::JahLyrics => "-"@,
        FetcherType::Musixmatch => "-"@,
    }
}

/// Whether apostrophes become the separator (else they are stripped).
pub open spec fn apostrophe_spec(f: FetcherType) -> bool {
    match f {
        FetcherType::AZLyrics => false,
        FetcherType::Genius => false,
        FetcherType::JahLyrics => false,
        FetcherType::Musixmatch => true,
    }
}

pub open spec fn template_spec(f: FetcherType) -> Seq<char> {
    match f {
        FetcherType::AZLyrics => "https://azlyrics.com/lyrics/%artist%/%title%.html"@,
        FetcherType::Genius => "https://genius.com/%artist%-%title%-lyrics"@,
        FetcherType::JahLyrics => "https://jah-lyrics.com/song/%artist%-%title%"@,
        FetcherType::Musixmatch => "https://www.musixmatch.com/lyrics/%artist%/%title%"@,
    }
}

/// The disclaimer comment that precedes the lyrics on the AZLyrics pages.
pub open spec fn azlyrics_marker() -> Seq<char> {
    "<!-- Usage of azlyrics.com content by any third-party lyrics provider is prohibited by our licensing agreement. Sorry about that. -->"@
}

/// The step markers of each provider's extraction pattern.
pub open spec fn steps_spec(f: FetcherType) -> Seq<Seq<Seq<char>>> {
    match f {
        FetcherType::AZLyrics => seq![seq![azlyrics_marker()]],
        FetcherType::Genius => seq![
            seq!["<div"@],
            seq!["class=\"lyrics"@, "class=\"Lyrics__Container"@],
            seq![">"@],
        ],
        FetcherType::JahLyrics => seq![seq!["<div class=\"song-header\">"@], seq!["</div>"@]],
        FetcherType::Musixmatch => seq![seq!["<span class=\"lyrics__content__"@], seq![">"@]],
    }
}

/// The end literal of each provider's extraction pattern.
pub open spec fn end_spec(f: FetcherType) -> Seq<char> {
    match f {
        FetcherType::AZLyrics => "</div>"@,
        FetcherType::Genius => "</div>"@,
        FetcherType::JahLyrics => "<p class=\"disclaimer\">"@,
        FetcherType::Musixmatch => "</span>"@,
    }
}

/// Whether the captured text still holds HTML and must be normalized.
pub open spec fn post_spec(f: FetcherType) -> bool {
    match f {
        FetcherType::AZLyrics => true,
        FetcherType::Genius => true,
        FetcherType::JahLyrics => true,
        FetcherType::Musixmatch => false,
    }
}

/// The URL one provider requests for a song.
pub open spec fn url_spec(f: FetcherType, title: Seq<char>, artist: Seq<char>) -> Seq<char> {
    create_url_spec(template_spec(f), sep_spec(f), apostrophe_spec(f), title, artist)
}

/// The descriptor `d` is provider `f`'s.
pub open spec fn descriptor_matches(d: &SourceDescriptor, f: FetcherType) -> bool {
    &&& d.identifier@ == id_spec(f)
    &&& d.display_name@ == name_spec(f)
    &&& d.word_separator@ == sep_spec(f)
    &&& (d.apostrophe == ApostropheHandling::ReplaceWithSeparator) == apostrophe_spec(f)
    &&& d.url_template@ == template_spec(f)
    &&& d.pattern.steps.deep_view() == steps_spec(f)
    &&& d.pattern.end@ == end_spec(f)
    &&& d.needs_post_processing == post_spec(f)
    &&& d.pattern.wf()
}

/// The provider a configured identifier names.
pub open spec fn fetcher_of_id(s: Seq<char>) -> Option<FetcherType> {
    if s == id_spec(FetcherType::AZLyrics) {
        Some(FetcherType::AZLyrics)
    } else if s == id_spec(FetcherType::Genius) {
        Some(FetcherType::Genius)
    } else if s == id_spec(FetcherType::JahLyrics) {
        Some(FetcherType::JahLyrics)
    } else if s == id_spec(FetcherType::Musixmatch) {
        Some(FetcherType::Musixmatch)
    } else {
        None
    }
}

/// The identifier names a provider of the known set.
pub open spec fn is_known_fetcher(s: Seq<char>) -> bool {
    fetcher_of_id(s) is Some
}

proof fn lemma_id_len(f: FetcherType)
    ensures
        id_spec(f).len() == (match f {
            FetcherType::AZLyrics => 8int,
            FetcherType::Genius => 6int,
            FetcherType::JahLyrics => 9int,
            FetcherType::Musixmatch => 10int,
        }),
{
    reveal_strlit("azlyrics");
    reveal_strlit("genius");
    reveal_strlit("jahlyrics");
    reveal_strlit("musixmatch");
    match f {
        FetcherType::AZLyrics => assert(id_spec(f).len() == 8),
        FetcherType::Genius => assert(id_spec(f).len() == 6),
        FetcherType::JahLyrics => assert(id_spec(f).len() == 9),
        FetcherType::Musixmatch => assert(id_spec(f).len() == 10),
    }
}

/// The provider identifiers form a closed set with no two alike: an
/// identifier names at most one provider.
pub proof fn lemma_identifiers_unique(f1: FetcherType, f2: FetcherType)
    requires
        id_spec(f1) == id_spec(f2),
    ensures
        f1 == f2,
{
    lemma_id_len(f1);
    lemma_id_len(f2);
}

impl FetcherType {
    /// Resolve a configured identifier to its provider.
    pub fn from_id(id: &str) -> (r: Option<FetcherType>)
        ensures
            r == fetcher_of_id(id@),
    {
        let owned = id.to_owned();
        if owned == String::from_str("azlyrics") {
            Some(FetcherType::AZLyrics)
        } else if owned == String::from_str("genius") {
            Some(FetcherType::Genius)
        } else if owned == String::from_str("jahlyrics") {
            Some(FetcherType::JahLyrics)
        } else if owned == String::from_str("musixmatch") {
            Some(FetcherType::Musixmatch)
        } else {
            None
        }
    }
}

} // verus!

verus! {

/// The known identifiers, in the standard try order.
pub open spec fn known_ids() -> Seq<Seq<char>> {
    seq![
        id_spec(FetcherType::AZLyrics),
        id_spec(FetcherType::Genius),
        id_spec(FetcherType::JahLyrics),
        id_spec(FetcherType::Musixmatch),
    ]
}

/// The known identifiers as runtime data, in the standard try order.
pub fn known_fetchers() -> (v: Vec<String>)
    ensures
        v.deep_view() == known_ids(),
{
    let mut v: Vec<String> = Vec::new();
    v.push(String::from_str("azlyrics"));
    v.push(String::from_str("genius"));
    v.push(String::from_str("jahlyrics"));
    v.push(String::from_str("musixmatch"));
    proof {
        assert(v.deep_view() =~~= known_ids());
    }
    v
}

/// The identifiers from position `i` on that name no known provider, in
/// order.
pub open spec fn unknowns_from(ids: Seq<Seq<char>>, i: int) -> Seq<Seq<char>>
    decreases ids.len() - i,
{
    if i < 0 || i >= ids.len() {
        Seq::empty()
    } else if !is_known_fetcher(ids[i]) {
        seq![ids[i]] + unknowns_from(ids, i + 1)
    } else {
        unknowns_from(ids, i + 1)
    }
}

/// Every identifier in `ids` that names no known provider, in order.
pub open spec fn unknowns_of(ids: Seq<Seq<char>>) -> Seq<Seq<char>> {
    unknowns_from(ids, 0)
}

/// With no unknown identifier from `i` on, every identifier there is
/// known.
pub proof fn lemma_no_unknowns(ids: Seq<Seq<char>>, i: int)
    requires
        0 <= i <= ids.len(),
        unknowns_from(ids, i).len() == 0,
    ensures
        forall|k: int| i <= k < ids.len() ==> is_known_fetcher(#[trigger] ids[k]),
    decreases ids.len() - i,
{
    if i < ids.len() {
        lemma_no_unknowns(ids, i + 1);
    }
}

/// The identifiers of `ids` that name no known provider, in order.
pub fn find_unknowns(ids: &Vec<String>) -> (bad: Vec<String>)
    ensures
        bad.deep_view() == unknowns_of(ids.deep_view()),
{
    let ghost dv = ids.deep_view();
    let n = ids.len();
    let mut bad: Vec<String> = Vec::new();
    let mut i: usize = 0;
    while i < n
        invariant
            n == ids@.len(),
            0 <= i <= n,
            dv == ids.deep_view(),
            unknowns_of(dv) == bad.deep_view() + unknowns_from(dv, i as int),
        decreases n - i,
    {
        proof {
            assert(dv[i as int] == ids@[i as int]@);
        }
        if FetcherType::from_id(ids[i].as_str()).is_none() {
            let ghost prev = bad@;
            let ghost prev_deep = bad.deep_view();
            proof {
                assert(bad.deep_view() + (seq![dv[i as int]] + unknowns_from(dv, i + 1)) =~= (
                bad.deep_view() + seq![dv[i as int]]) + unknowns_from(dv, i + 1));
            }
            bad.push(ids[i].clone());
            proof {
                assert(bad@ == prev.push(ids@[i as int]));
                assert forall|k: int| 0 <= k < prev.len() + 1 implies bad.deep_view()[k] == (
                prev_deep + seq![dv[i as int]])[k] by {
                    assert(bad.deep_view()[k] == bad@[k]@);
                    if k < prev.len() {
                        assert(bad@[k] == prev[k]);
                        assert(prev_deep[k] == prev[k]@);
                    } else {
                        assert(bad@[k] == ids@[i as int]);
                    }
                }
                assert(bad.deep_view() =~= prev_deep + seq![dv[i as int]]);
            }
        }
        i += 1;
    }
    assert(bad.deep_view() + unknowns_from(dv, i as int) =~= bad.deep_view());
    bad
}

/// An identifier as the error message shows it: wrapped in quotes.
pub open spec fn quoted(s: Seq<char>) -> Seq<char> {
    seq!['"'] + s + seq!['"']
}

/// The quoted identifiers from `i` on, separated by a comma and a space.
pub open spec fn quoted_items_from(ids: Seq<Seq<char>>, i: int) -> Seq<char>
    decreases ids.len() - i,
{
    if i < 0 || i >= ids.len() {
        Seq::empty()
    } else if i == ids.len() - 1 {
        quoted(ids[i])
    } else {
        quoted(ids[i]) + seq![',', ' '] + quoted_items_from(ids, i + 1)
    }
}

/// A bracketed, quoted list of identifiers, as the unknown-fetcher
/// message shows one.
pub open spec fn quoted_list(ids: Seq<Seq<char>>) -> Seq<char> {
    seq!['['] + quoted_items_from(ids, 0) + seq![']']
}

/// The payload of the unknown-fetcher error: the offending identifiers,
/// then the valid keys.
pub open spec fn bad_fetcher_payload(bad: Seq<Seq<char>>) -> Seq<char> {
    quoted_list(bad) + ", Valid keys are: "@ + quoted_list(known_ids())
}

/// Append the bracketed, quoted list of `ids` to `out`.
fn push_quoted_list(out: &mut Vec<char>, ids: &Vec<String>)
    ensures
        final(out)@ == old(out)@ + quoted_list(ids.deep_view()),
{
    let ghost dv = ids.deep_view();
    let n = ids.len();
    out.push('[');
    let mut i: usize = 0;
    while i < n
        invariant
            n == ids@.len(),
            0 <= i <= n,
            dv == ids.deep_view(),
            out@ + quoted_items_from(dv, i as int) == old(out)@ + seq!['['] + quoted_items_from(
                dv,
                0,
            ),
        decreases n - i,
    {
        proof {
            assert(dv[i as int] == ids@[i as int]@);
        }
        let ghost pre = out@;
        out.push('"');
        let cv = str_to_chars(ids[i].as_str());
        push_all(out, &cv);
        out.push('"');
        proof {
            assert(out@ =~= pre + quoted(dv[i as int]));
        }
        if i + 1 < n {
            out.push(',');
            out.push(' ');
            proof {
                assert(out@ + quoted_items_from(dv, i + 1) =~= pre + (quoted(dv[i as int]) + seq![
                    ',',
                    ' ',
                ] + quoted_items_from(dv, i + 1)));
            }
        } else {
            proof {
                assert(quoted_items_from(dv, i + 1) =~= Seq::<char>::empty());
                assert(out@ + quoted_items_from(dv, i + 1) =~= pre + quoted(dv[i as int]));
            }
        }
        i += 1;
    }
    proof {
        assert(quoted_items_from(dv, i as int) =~= Seq::<char>::empty());
    }
    out.push(']');
    assert(out@ =~= old(out)@ + quoted_list(dv));
}

/// The unknown-fetcher error payload for the offending identifiers.
pub fn bad_keys_payload(bad: &Vec<String>) -> (r: String)
    ensures
        r@ == bad_fetcher_payload(bad.deep_view()),
{
    let mut out: Vec<char> = Vec::new();
    push_quoted_list(&mut out, bad);
    let mid = str_to_chars(", Valid keys are: ");
    push_all(&mut out, &mid);
    let known = known_fetchers();
    push_quoted_list(&mut out, &known);
    proof {
        assert(out@ =~= bad_fetcher_payload(bad.deep_view()));
    }
    chars_to_string(&out)
}

} // verus!

verus! {

/// What Unicode lower-casing yields: a function of the characters alone.
pub uninterp spec fn lower_of(s: Seq<char>) -> Seq<char>;

/// Relies on `str::to_lowercase`: the result depends on the characters
/// alone, and an empty string stays empty.
#[verifier::external_body]
fn lowercase(s: &str) -> (r: String)
    ensures
        r@ == lower_of(s@),
        s@.len() == 0 ==> r@.len() == 0,
{
    s.to_lowercase()
}

/// One lookup request: a song's title and artist, both case-normalized
/// before any source is asked.
pub struct FetchRequest {
    pub title: String,
    pub artist: String,
}

impl FetchRequest {
    /// Build a request: both names are lower-cased.
    pub fn new(title: &str, artist: &str) -> (r: FetchRequest)
        ensures
            r.title@ == lower_of(title@),
            r.artist@ == lower_of(artist@),
    {
        FetchRequest { title: lowercase(title), artist: lowercase(artist) }
    }
}

} // verus!
