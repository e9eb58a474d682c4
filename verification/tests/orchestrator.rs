use lyr::error::Error;
use lyr::orchestrator::FetchSession;

fn two_sources() -> FetchSession {
    FetchSession::new(vec![String::from("genius"), String::from("musixmatch")]).unwrap()
}

#[test]
fn unknown_identifier_is_rejected_before_any_fetch() {
    let r = FetchSession::new(vec![String::from("genius"), String::from("spotify")]);
    match r {
        Err(Error::BadFetcher(keys)) => assert_eq!(
            keys,
            "[\"spotify\"], Valid keys are: [\"azlyrics\", \"genius\", \"jahlyrics\", \"musixmatch\"]"
        ),
        _ => panic!("expected a bad-fetcher error"),
    }
}

#[test]
fn sources_are_tried_in_configured_order() {
    let mut s = two_sources();
    assert_eq!(s.pending().unwrap(), "genius");
    s.submit(Some(""));
    assert_eq!(s.pending().unwrap(), "musixmatch");
}

#[test]
fn short_circuit_after_first_success() {
    let mut s = two_sources();
    assert_eq!(s.pending().unwrap(), "genius");
    s.submit(Some("<div class=\"lyrics\">found it</div>"));
    // The second source is never asked for.
    assert!(s.pending().is_none());
    assert_eq!(s.outcome().unwrap(), "found it");
}

#[test]
fn exhaustion_yields_no_lyrics() {
    let mut s = two_sources();
    s.submit(Some("no markers here"));
    s.submit(Some(""));
    assert!(s.pending().is_none());
    assert!(matches!(s.outcome(), Err(Error::NoLyrics)));
}

#[test]
fn transport_failure_moves_to_the_next_source() {
    let mut s = two_sources();
    s.submit(None);
    assert_eq!(s.pending().unwrap(), "musixmatch");
    s.submit(Some("<span class=\"lyrics__content__x\">ok</span>"));
    assert_eq!(s.outcome().unwrap(), "ok");
}

#[test]
fn pending_url_follows_the_pending_source() {
    let s = two_sources();
    assert_eq!(
        s.pending_url("Bohemian Rhapsody", "Queen").unwrap(),
        "https://genius.com/Queen-Bohemian-Rhapsody-lyrics"
    );
}

#[test]
fn empty_source_list_is_exhausted_at_once() {
    let s = FetchSession::new(Vec::new()).unwrap();
    assert!(s.pending().is_none());
    assert!(matches!(s.outcome(), Err(Error::NoLyrics)));
}
