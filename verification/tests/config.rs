use lyr::config::Config;
use lyr::error::Error;

#[test]
fn default_lists_every_known_source_in_order() {
    let c = Config::default();
    assert_eq!(c.flags, "");
    assert_eq!(c.fetchers, vec!["azlyrics", "genius", "jahlyrics", "musixmatch"]);
}

#[test]
fn identifiers_are_lower_cased_and_accepted() {
    let c = Config::validated(
        String::from("-v"),
        vec![String::from("GENIUS"), String::from("AzLyrics")],
    )
    .unwrap();
    assert_eq!(c.flags, "-v");
    assert_eq!(c.fetchers, vec!["genius", "azlyrics"]);
}

#[test]
fn every_unknown_identifier_is_reported_with_the_valid_keys() {
    let r = Config::validated(
        String::new(),
        vec![String::from("genius"), String::from("Spotify"), String::from("tidal")],
    );
    match r {
        Err(Error::BadFetcher(keys)) => assert_eq!(
            keys,
            "[\"spotify\", \"tidal\"], Valid keys are: [\"azlyrics\", \"genius\", \"jahlyrics\", \"musixmatch\"]"
        ),
        _ => panic!("expected a bad-fetcher error"),
    }
}

#[test]
fn empty_source_list_is_valid() {
    let c = Config::validated(String::new(), Vec::new()).unwrap();
    assert!(c.fetchers.is_empty());
}
