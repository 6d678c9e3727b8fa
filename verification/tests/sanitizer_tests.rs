use jarchive::sanitizer::sanitize;

#[test]
fn removes_html_encoded_values() {
    let result = sanitize(
        "He won the pentathlon &amp; the decathlon at the summer Olympics in Stockholm",
    );

    let expected = "He won the pentathlon & the decathlon at the summer Olympics in Stockholm";

    assert_eq!(result, expected);
}

#[test]
fn mod_removes_html_encoded_values() {
    let result = sanitize(
        "He won the pentathlon &amp; the decathlon at the summer Olympics in Stockholm",
    );

    let expected = "He won the pentathlon & the decathlon at the summer Olympics in Stockholm";

    assert_eq!(result, expected);
}

#[test]
fn removes_html_elements() {
    let result = sanitize("100 YEARS AGO<span class=\"nobreak\">--</span>1912");
    let expected = "100 YEARS AGO -- 1912";

    assert_eq!(result, expected);
}

#[test]
fn trims_str() {
    let result = sanitize(" sotto vocce ");
    let expected = "sotto vocce";

    assert_eq!(result, expected);
}

#[test]
fn empty_string_stays_empty() {
    assert_eq!(sanitize(""), "");
}

#[test]
fn bare_tag_becomes_nothing() {
    assert_eq!(sanitize("<>"), "");
    assert_eq!(sanitize("<br>"), "");
}

#[test]
fn unclosed_tag_is_kept() {
    assert_eq!(sanitize("a <b c"), "a <b c");
    assert_eq!(sanitize("a </b c"), "a </b c");
}

#[test]
fn closing_tags_go_before_opening_tags() {
    assert_eq!(sanitize("x</em>y<em>z"), "x y z");
}

#[test]
fn handles_characters_beyond_ascii() {
    assert_eq!(sanitize("café <b>au</b> lait"), "café  au  lait");
    assert_eq!(sanitize(" víðharmr "), "víðharmr");
}

#[test]
fn sanitize_is_idempotent() {
    let inputs = [
        "He won the pentathlon &amp; the decathlon",
        "100 YEARS AGO<span class=\"nobreak\">--</span>1912",
        " sotto vocce ",
        "",
        "a <b c",
        "plain text",
        "  <i>nested &amp; trimmed</i>  ",
    ];
    for input in inputs {
        let once = sanitize(input);
        let twice = sanitize(&once);
        assert_eq!(twice, once);
    }
}

#[test]
fn decoding_can_uncover_an_entity() {
    // the one family of inputs on which a second pass still changes the
    // text: decoding "&amp;amp;" leaves "&amp;" behind
    let once = sanitize("&amp;amp;");
    assert_eq!(once, "&amp;");
    assert_eq!(sanitize(&once), "&");
}

#[test]
fn entity_decoding_scans_left_to_right() {
    assert_eq!(sanitize("&&amp;"), "&&");
    assert_eq!(sanitize("&amp;&amp;"), "&&");
}
