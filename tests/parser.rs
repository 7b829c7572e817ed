use svg2svelte::attributes::SvgAttributes;
use svg2svelte::parser::{parse_attributes, ParseError};

#[test]
fn test_svg_no_attributes_is_ok() {
    let input = r#"<svg>"#;
    let expected = SvgAttributes::new();
    let (attributes, _) = parse_attributes(input).unwrap();

    assert_eq!(attributes, expected);
}

#[test]
fn test_parse_open_tag_overall_text_equals_svg_section() {
    let overall = r#"<!-- COMMENT --><svg class='tst' name="soarfan"><!-- COMMENT -->"#;
    let expected = r#"<svg class='tst' name="soarfan">"#;
    let (_, tag_text) = parse_attributes(overall).unwrap();

    assert_eq!(tag_text.as_str(), expected);
}

#[test]
fn test_attributes_are_parsed_correctly() {
    let input = r#"<svg class='hello' name="SOAR">"#;
    let (attributes, _) = parse_attributes(input).unwrap();

    let mut expected = SvgAttributes::new();
    expected.set_attribute("class", "hello");
    expected.set_attribute("name", "SOAR");

    assert_eq!(attributes, expected);
}

#[test]
fn test_non_svg_is_err() {
    let input = r#"<div class="test"></div>"#;
    let result = parse_attributes(input);

    assert!(result.is_err());
}

#[test]
fn test_only_svg_closing_is_err() {
    let input = r#"</svg>"#;
    let result = parse_attributes(input);

    assert!(result.is_err());
}

#[test]
fn no_tag_error_variant() {
    assert_eq!(parse_attributes("").unwrap_err(), ParseError::NoTagFound);
    assert_eq!(parse_attributes("<svg width='1'").unwrap_err(), ParseError::NoTagFound);
}

#[test]
fn unquoted_and_bare_attributes_are_dropped() {
    let (attributes, tag) = parse_attributes("<svg width=10 hidden height='5' x_y=\"a b\">").unwrap();

    assert_eq!(tag, "<svg width=10 hidden height='5' x_y=\"a b\">");
    assert_eq!(attributes.get_attribute("width"), None);
    assert_eq!(attributes.get_attribute("hidden"), None);
    assert_eq!(attributes.get_attribute("height").map(|v| v.as_str()), Some("5"));
    assert_eq!(attributes.get_attribute("x_y").map(|v| v.as_str()), Some("a b"));
}

#[test]
fn empty_value_is_not_an_attribute() {
    let (attributes, _) = parse_attributes("<svg a='' b='2'>").unwrap();

    assert_eq!(attributes.get_attribute("a"), None);
    assert_eq!(attributes.get_attribute("b").map(|v| v.as_str()), Some("2"));
}

#[test]
fn value_may_hold_the_other_quote() {
    let (attributes, _) = parse_attributes("<svg title=\"it's\">").unwrap();

    assert_eq!(attributes.get_attribute("title").map(|v| v.as_str()), Some("it's"));
}

#[test]
fn later_duplicate_attribute_wins() {
    let (attributes, _) = parse_attributes("<svg fill='a' fill='b'>").unwrap();

    assert_eq!(attributes.get_attribute("fill").map(|v| v.as_str()), Some("b"));
}

#[test]
fn only_the_first_open_tag_is_read() {
    let (attributes, tag) = parse_attributes("x<svg a='1'><svg b='2'>").unwrap();

    assert_eq!(tag, "<svg a='1'>");
    assert_eq!(attributes.get_attribute("b"), None);
}
