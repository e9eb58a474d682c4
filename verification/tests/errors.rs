use lyr::error::Error;

#[test]
fn messages_describe_each_failure() {
    assert_eq!(Error::NoLyrics.message(), "The lyrics fetcher returned an empty string");
    assert_eq!(Error::EmptyResponse.message(), "The lyrics fetcher returned an empty string");
    assert_eq!(Error::NoMatches.message(), "No match found in fetcher's output");
    assert_eq!(
        Error::BadFetcher(String::from("[\"spotify\"]")).message(),
        "Unknown fetcher(s): [\"spotify\"]"
    );
    assert_eq!(
        Error::BadCharReference.message(),
        "Malformed numeric character reference in fragment"
    );
}
