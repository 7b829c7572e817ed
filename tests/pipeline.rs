use svg2svelte::config::Config;
use svg2svelte::options::Options;
use svg2svelte::transpiler::Transpiler;

#[test]
fn component_wraps_style_block() {
    let out = Transpiler::to_svelte("<svg></svg>", "css", ".a { fill: red; }");

    assert_eq!(out, "<svg></svg>\n<style lang='css'>\n\t.a { fill: red; }\n</style>");
}

#[test]
fn empty_style_still_gives_a_block() {
    assert_eq!(Transpiler::to_svelte("x", "scss", ""), "x\n<style lang='scss'>\n\t\n</style>");
}

#[test]
fn options_parse_numbers() {
    assert_eq!(Options::parse("3"), Some(3));
    assert_eq!(Options::parse("+7"), Some(7));
    assert_eq!(Options::parse("255"), Some(255));
    assert_eq!(Options::parse("256"), None);
    assert_eq!(Options::parse("-1"), None);
    assert_eq!(Options::parse(""), None);
    assert_eq!(Options::parse("x"), None);
}

#[test]
fn default_config_paths() {
    let config = Config::default();

    assert_eq!(config.style_file_path(), "style.css");
    assert_eq!(config.svg_file_path(), "Background-Light.svg");
    assert_eq!(config.output_file_path(), "Diagram.svelte");
    assert!(config.color_mappings().is_empty());
}

#[test]
fn config_setters() {
    let mut config = Config::default();
    config.set_style_file_path("a.css");
    config.set_svg_file_path("b.svg");
    config.set_output_file_path("C.svelte");

    assert_eq!(config.style_file_path(), "a.css");
    assert_eq!(config.svg_file_path(), "b.svg");
    assert_eq!(config.output_file_path(), "C.svelte");
}

#[test]
fn plain_component_has_no_language() {
    assert_eq!(Transpiler::to_plain_svelte("<svg/>", "a{}"), "<svg/>\n<style>\na{}\n</style>");
}
