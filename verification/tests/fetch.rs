use lyr::error::Error;
use lyr::fetcher::ApostropheHandling;
use lyr::fetcher::FetchRequest;
use lyr::fetchers::fetch;
use lyr::fetchers::AZLyricsFetcher;
use lyr::fetchers::GeniusFetcher;
use lyr::fetchers::JahLyricsFetcher;
use lyr::fetchers::MusixmatchFetcher;

#[test]
fn genius_end_to_end() {
    let response = "<div class=\"lyrics\">Is this the real life?<br>Is this just fantasy?</div>";
    assert_eq!(
        fetch("genius", response).unwrap(),
        "Is this the real life?\nIs this just fantasy?"
    );
}

#[test]
fn genius_new_container_class() {
    let response = "<div data-x=\"1\" class=\"Lyrics__Container-abc\">Line one<br>Line two</div>";
    assert_eq!(fetch("genius", response).unwrap(), "Line one\nLine two");
}

#[test]
fn empty_response_fails_the_attempt() {
    assert!(matches!(fetch("genius", ""), Err(Error::EmptyResponse)));
}

#[test]
fn no_container_means_no_matches() {
    assert!(matches!(
        fetch("genius", "<html><body>nothing here</body></html>"),
        Err(Error::NoMatches)
    ));
}

#[test]
fn azlyrics_text_after_disclaimer_comment() {
    let response = "<html><div><!-- Usage of azlyrics.com content by any third-party lyrics provider is prohibited by our licensing agreement. Sorry about that. -->Hello<br>World</div></html>";
    assert_eq!(fetch("azlyrics", response).unwrap(), "Hello\nWorld");
}

#[test]
fn jahlyrics_between_header_and_disclaimer() {
    let response = "<div class=\"song-header\"><h1>t</h1></div><p>One love<br>One heart</p><p class=\"disclaimer\">x</p>";
    assert_eq!(fetch("jahlyrics", response).unwrap(), "One love\nOne heart\n");
}

#[test]
fn musixmatch_concatenates_spans_without_post_processing() {
    let response = "<span class=\"lyrics__content__ok\">Line1</span><span class=\"lyrics__content__ok\">\nLine2</span>";
    assert_eq!(fetch("musixmatch", response).unwrap(), "Line1\nLine2");
}

#[test]
fn multiple_captures_concatenate_in_order() {
    let response =
        "<div class=\"lyrics\">first</div><div class=\"lyrics\">(second)</div>";
    assert_eq!(fetch("genius", response).unwrap(), "first(second)");
}

#[test]
fn response_body_is_trimmed_before_matching() {
    let response = "   <div class=\"lyrics\">x</div>   ";
    assert_eq!(fetch("genius", response).unwrap(), "x");
}

#[test]
fn bad_reference_in_fragment_fails_the_attempt() {
    let response = "<div class=\"lyrics\">bad &#zz; ref</div>";
    assert!(matches!(fetch("genius", response), Err(Error::BadCharReference)));
}

#[test]
fn raw_line_breaks_do_not_defeat_break_tags() {
    // The captured fragment holds raw newlines inside the markup; they
    // are removed before the break tags are converted.
    let response = "<div class=\"lyrics\">a<br\n>b</div>";
    assert_eq!(fetch("genius", response).unwrap(), "a\nb");
}

#[test]
fn descriptors_carry_the_conventions() {
    let az = AZLyricsFetcher::descriptor();
    assert_eq!(az.identifier, "azlyrics");
    assert_eq!(az.display_name, "AZLyrics");
    assert_eq!(az.word_separator, "");
    assert_eq!(az.apostrophe, ApostropheHandling::Strip);
    assert!(az.needs_post_processing);

    let ge = GeniusFetcher::descriptor();
    assert_eq!(ge.identifier, "genius");
    assert_eq!(ge.url_template, "https://genius.com/%artist%-%title%-lyrics");

    let ja = JahLyricsFetcher::descriptor();
    assert_eq!(ja.identifier, "jahlyrics");
    assert_eq!(ja.display_name, "Jah Lyrics");

    let mu = MusixmatchFetcher::descriptor();
    assert_eq!(mu.identifier, "musixmatch");
    assert_eq!(mu.apostrophe, ApostropheHandling::ReplaceWithSeparator);
    assert!(!mu.needs_post_processing);
}

#[test]
fn requests_are_case_normalized() {
    let r = FetchRequest::new("Bohemian Rhapsody", "QUEEN");
    assert_eq!(r.title, "bohemian rhapsody");
    assert_eq!(r.artist, "queen");
}
