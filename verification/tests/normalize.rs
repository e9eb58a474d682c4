use lyr::error::Error;
use lyr::fetchers::default_post_process;
use lyr::text::strip_html;

#[test]
fn numeric_refs_round_trip() {
    assert_eq!(strip_html("&#65;&#x42;").unwrap(), "AB");
}

#[test]
fn numeric_ref_decimal() {
    assert_eq!(strip_html("&#97;bc").unwrap(), "abc");
}

#[test]
fn numeric_ref_hex_lower_and_upper_digits() {
    assert_eq!(strip_html("&#x61;&#x5A;").unwrap(), "aZ");
}

#[test]
fn named_entity_longest_match() {
    assert_eq!(strip_html("&amp;amp;").unwrap(), "&amp;");
}

#[test]
fn named_entity_table() {
    assert_eq!(
        strip_html("x&nbsp;&lt;&gt;&amp;&quot;&apos;&cent;&pound;&yen;&euro;&copy;&reg;&ndash;&mdash;")
            .unwrap(),
        "x <>&\"'\u{a2}\u{a3}\u{a5}\u{20ac}\u{a9}\u{ae}\u{2013}\u{2014}"
    );
}

#[test]
fn unknown_entity_left_alone() {
    assert_eq!(strip_html("a&bogus;b").unwrap(), "a&bogus;b");
}

#[test]
fn br_and_p_tags_become_newlines() {
    assert_eq!(
        strip_html("Is this the real life?<br>Is this just fantasy?").unwrap(),
        "Is this the real life?\nIs this just fantasy?"
    );
    assert_eq!(strip_html("a<p>b</p>c<br/>d</br>e").unwrap(), "a\nb\nc\nd\ne");
}

#[test]
fn br_tag_with_attributes() {
    assert_eq!(strip_html("a<br class=\"x\">b<p id='y'>c").unwrap(), "a\nb\nc");
}

#[test]
fn generic_tags_stripped() {
    assert_eq!(strip_html("<i>x</i> and <a href=\"u\">y</a>").unwrap(), "x and y");
}

#[test]
fn empty_angle_brackets_stay() {
    assert_eq!(strip_html("a<>b").unwrap(), "a<>b");
}

#[test]
fn leading_whitespace_trimmed_trailing_kept() {
    assert_eq!(strip_html("  \n hi \n").unwrap(), "hi \n");
}

#[test]
fn malformed_empty_reference_is_fatal() {
    assert!(matches!(strip_html("&#;"), Err(Error::BadCharReference)));
}

#[test]
fn malformed_nondigit_reference_is_fatal() {
    assert!(matches!(strip_html("&#zz;"), Err(Error::BadCharReference)));
}

#[test]
fn surrogate_reference_is_fatal() {
    assert!(matches!(strip_html("&#xD800;"), Err(Error::BadCharReference)));
}

#[test]
fn overlong_reference_body_is_not_a_reference() {
    // Six word characters never match the reference shape, so the text
    // stays as it is.
    assert_eq!(strip_html("&#123456;").unwrap(), "&#123456;");
}

#[test]
fn reference_decoding_runs_before_tag_handling() {
    // &#60; is '<': decoded first, it starts a tag span that is then
    // stripped.
    assert_eq!(strip_html("a&#60;i>b").unwrap(), "ab");
}

#[test]
fn default_post_process_removes_raw_line_breaks_first() {
    let mut s = String::from("line\r\none<br>two");
    assert!(default_post_process(&mut s).is_ok());
    assert_eq!(s, "lineone\ntwo");
}

#[test]
fn default_post_process_keeps_input_on_bad_reference() {
    let mut s = String::from("x&#zz;y");
    assert!(matches!(default_post_process(&mut s), Err(Error::BadCharReference)));
    assert_eq!(s, "x&#zz;y");
}

#[test]
fn largest_hex_reference_in_range() {
    assert_eq!(strip_html("a&#xFFFF;b").unwrap(), "a\u{ffff}b");
}

#[test]
fn largest_decimal_reference_in_range() {
    assert_eq!(strip_html("a&#99999;b").unwrap(), "a\u{1869f}b");
}

#[test]
fn surrogate_range_boundaries() {
    assert_eq!(strip_html("a&#xD7FF;&#xE000;b").unwrap(), "a\u{d7ff}\u{e000}b");
    assert!(matches!(strip_html("&#xDFFF;"), Err(Error::BadCharReference)));
}
