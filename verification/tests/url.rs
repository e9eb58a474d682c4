use lyr::fetchers::request_url;
use lyr::url::create_url;

#[test]
fn plain_names_substitute_verbatim() {
    assert_eq!(create_url("%artist%-%title%", "-", false, "Title", "Artist"), "Artist-Title");
}

#[test]
fn feature_suffix_stripped_feat() {
    let with_feature = create_url("%artist%-%title%", "-", false, "Song (feat. X)", "Artist");
    let without = create_url("%artist%-%title%", "-", false, "Song", "Artist");
    assert_eq!(with_feature, without);
    assert_eq!(with_feature, "Artist-Song");
}

#[test]
fn feature_suffix_stripped_with() {
    assert_eq!(
        create_url("%title%", "-", false, "Song (with Somebody)", "a"),
        create_url("%title%", "-", false, "Song", "a")
    );
}

#[test]
fn only_first_feature_annotation_removed() {
    assert_eq!(create_url("%title%", "", false, "A (feat. X) (feat. Y)", ""), "A(feat.Y)");
}

#[test]
fn apostrophe_stripped() {
    assert_eq!(create_url("%artist%", "", false, "t", "O'Brien"), "OBrien");
}

#[test]
fn apostrophe_replaced_with_separator() {
    assert_eq!(create_url("%artist%", "-", true, "t", "O'Brien"), "O-Brien");
}

#[test]
fn spaces_underscores_hyphens_become_separator() {
    assert_eq!(create_url("%title%", "+", false, "a b_c-d", ""), "a+b+c+d");
}

#[test]
fn empty_separator_removes_word_breaks() {
    assert_eq!(create_url("%title%", "", false, "Bohemian Rhapsody", ""), "BohemianRhapsody");
}

#[test]
fn genius_url_for_bohemian_rhapsody() {
    assert_eq!(
        create_url(
            "https://genius.com/%artist%-%title%-lyrics",
            "-",
            false,
            "Bohemian Rhapsody",
            "Queen"
        ),
        "https://genius.com/Queen-Bohemian-Rhapsody-lyrics"
    );
}

#[test]
fn request_url_uses_the_source_conventions() {
    assert_eq!(
        request_url("genius", "Bohemian Rhapsody", "Queen"),
        "https://genius.com/Queen-Bohemian-Rhapsody-lyrics"
    );
    assert_eq!(
        request_url("azlyrics", "Bohemian Rhapsody", "Queen"),
        "https://azlyrics.com/lyrics/Queen/BohemianRhapsody.html"
    );
    assert_eq!(
        request_url("jahlyrics", "One Love", "Bob Marley"),
        "https://jah-lyrics.com/song/Bob-Marley-One-Love"
    );
    assert_eq!(
        request_url("musixmatch", "Don't Stop", "Fleetwood Mac"),
        "https://www.musixmatch.com/lyrics/Fleetwood-Mac/Don-t-Stop"
    );
}
