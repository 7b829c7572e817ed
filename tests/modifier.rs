use svg2svelte::color::{CssColor, VarColor};
use svg2svelte::config::Config;
use svg2svelte::modifier::{modify_svg_open_tag, Modifier};
use svg2svelte::substitution::apply_color_rules;
use svg2svelte::parser::parse_attributes;

#[test]
pub fn modifier_test_modify_empty_tag() {
    let input = r#"<!-- Soar!!! --><svg><!-- comment -->"#;
    let (attributes, original_svg_string) = parse_attributes(input).unwrap();

    let config = Config::default();
    let mut modifier = Modifier::new(&config, input);
    modifier.fix_svg_open_tag(original_svg_string.as_str(), attributes);
    let result = modifier.accumulate();

    assert!(result.contains("Soar!!"));
    assert!(result.contains("comment"));
    assert!(result.contains("class='diagram'"));
    assert!(result.contains("fill='none'"));
    assert!(result.contains("xmlns='http://www.w3.org/2000/svg'"));
    assert!(!result.contains("viewBox"));
}

#[test]
pub fn modifier_test_modify_tag_with_dimensions() {
    let input = r#"<!-- whyyy --><svg width="69" height="420"><!-- :( -->"#;
    let (attributes, original_svg_string) = parse_attributes(input).unwrap();

    let config = Config::default();
    let mut modifier = Modifier::new(&config, input);
    modifier.fix_svg_open_tag(original_svg_string.as_str(), attributes);
    let result = modifier.accumulate();

    assert!(result.contains("class='diagram'"));
    assert!(result.contains("fill='none'"));
    assert!(result.contains("xmlns='http://www.w3.org/2000/svg'"));
    assert!(result.contains("viewBox='0 0 69 420'"));
}

#[test]
pub fn test_map_colors() {
    let input = "<svg fill='#ff00ff' stroke='red' fill='#ff00ff' stroke='blue'></svg>";

    let mut config = Config::default();

    config.set_color_mapping(
        CssColor::new("#ff00ff").unwrap(),
        VarColor::new("--test-color").unwrap(),
    );

    config.set_color_mapping(
        CssColor::new("red").unwrap(),
        VarColor::new("--test-red").unwrap(),
    );

    let mut modifier = Modifier::new(&config, input);
    modifier.map_colors();
    let result = modifier.accumulate();
    let expected = "<svg fill='var(--test-color)' stroke='var(--test-red)' fill='var(--test-color)' stroke='blue'></svg>";

    assert_eq!(result, expected);
}

#[test]
fn modify_svg_open_tag_empty_tag() {
    let input = r#"<!-- Soar!!! --><svg><!-- comment -->"#;
    let (attributes, tag) = parse_attributes(input).unwrap();
    let result = modify_svg_open_tag(input, tag.as_str(), attributes);

    assert_eq!(
        result,
        "<!-- Soar!!! --><svg class='diagram' fill='none' xmlns='http://www.w3.org/2000/svg'><!-- comment -->"
    );
}

#[test]
fn modify_svg_open_tag_with_dimensions() {
    let input = r#"<!-- whyyy --><svg width="69" height="420"><!-- :( -->"#;
    let (attributes, tag) = parse_attributes(input).unwrap();
    let result = modify_svg_open_tag(input, tag.as_str(), attributes);

    assert_eq!(
        result,
        "<!-- whyyy --><svg width='69' height='420' class='diagram' fill='none' xmlns='http://www.w3.org/2000/svg' viewBox='0 0 69 420'><!-- :( -->"
    );
}

#[test]
fn forced_attributes_override_existing_values() {
    let input = "<svg class='x' fill='red' xmlns='other'>";
    let (attributes, tag) = parse_attributes(input).unwrap();
    let result = modify_svg_open_tag(input, tag.as_str(), attributes);

    assert_eq!(result, "<svg class='diagram' fill='none' xmlns='http://www.w3.org/2000/svg'>");
}

#[test]
fn view_box_needs_both_dimensions() {
    let input = "<svg width='10'>";
    let (attributes, tag) = parse_attributes(input).unwrap();
    let result = modify_svg_open_tag(input, tag.as_str(), attributes);

    assert!(!result.contains("viewBox"));
}

#[test]
fn existing_view_box_is_kept() {
    let input = "<svg viewBox='1 2 3 4'>";
    let (attributes, tag) = parse_attributes(input).unwrap();
    let result = modify_svg_open_tag(input, tag.as_str(), attributes);

    assert!(result.contains("viewBox='1 2 3 4'"));
}

#[test]
fn view_box_takes_dimensions_verbatim() {
    let input = "<svg width='10em' height='auto'>";
    let (attributes, tag) = parse_attributes(input).unwrap();
    let result = modify_svg_open_tag(input, tag.as_str(), attributes);

    assert!(result.contains("viewBox='0 0 10em auto'"));
}

#[test]
fn only_the_first_copy_of_the_tag_is_rewritten() {
    let input = "a<svg>b<svg>c";
    let (attributes, tag) = parse_attributes(input).unwrap();
    let result = modify_svg_open_tag(input, tag.as_str(), attributes);

    assert_eq!(
        result,
        "a<svg class='diagram' fill='none' xmlns='http://www.w3.org/2000/svg'>b<svg>c"
    );
}

#[test]
fn tag_text_that_does_not_occur_leaves_the_document() {
    let result = modify_svg_open_tag("<svg>", "<svg x='1'>", svg2svelte::attributes::SvgAttributes::new());

    assert_eq!(result, "<svg>");
}

#[test]
fn rule_without_occurrence_is_a_no_op() {
    let mut config = Config::default();
    config.set_color_mapping(CssColor::new("green").unwrap(), VarColor::new("--g").unwrap());

    assert_eq!(apply_color_rules("<svg fill='blue'>", &config), "<svg fill='blue'>");
}

#[test]
fn rules_replace_inside_any_text() {
    let mut config = Config::default();
    config.set_color_mapping(CssColor::new("red").unwrap(), VarColor::new("--r").unwrap());

    assert_eq!(apply_color_rules("darkred redred", &config), "darkvar(--r) var(--r)var(--r)");
}

#[test]
fn rules_apply_in_order_of_definition() {
    let mut config = Config::default();
    config.set_color_mapping(CssColor::new("red").unwrap(), VarColor::new("--r").unwrap());
    config.set_color_mapping(CssColor::new("r").unwrap(), VarColor::new("x").unwrap());

    assert_eq!(apply_color_rules("red", &config), "vavar(x)(--var(x))");
}

#[test]
fn redefined_rule_replaces_the_earlier_one() {
    let mut config = Config::default();
    config.set_color_mapping(CssColor::new("red").unwrap(), VarColor::new("--a").unwrap());
    config.set_color_mapping(CssColor::new("RED").unwrap(), VarColor::new("--b").unwrap());

    assert_eq!(config.color_mappings().len(), 1);
    assert_eq!(apply_color_rules("red", &config), "var(--b)");
}
