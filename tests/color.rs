use svg2svelte::color::{is_valid_color_literal, is_valid_var_name, ColorError, CssColor, VarColor};

#[test]
fn test_css_color_new() {
    let valid_hex_color = "#ff00ff";
    let invalid_hex_color = "#ff00fg";
    let valid_color_name = "red";
    let invalid_color_name = "red1";

    assert!(CssColor::new(valid_hex_color).is_ok());
    assert!(CssColor::new(invalid_hex_color).is_err());
    assert!(CssColor::new(valid_color_name).is_ok());
    assert!(CssColor::new(invalid_color_name).is_err());
}

#[test]
fn test_css_color_as_str() {
    let color = "red";
    let css_color = CssColor::new(color).unwrap();

    assert_eq!(css_color.as_str(), color);
}

#[test]
fn test_var_color_new() {
    let valid_var_name = "--soar-fan";
    let invalid_var_name = "--soar fan";

    assert!(VarColor::new(valid_var_name).is_ok());
    assert!(VarColor::new(invalid_var_name).is_err());
}

#[test]
fn test_var_color_as_str() {
    let var_name = "--soar-fan";
    let var_color = VarColor::new(var_name).unwrap();

    assert_eq!(var_color.as_str(), var_name);
}

#[test]
fn css_color_is_lowercased() {
    assert_eq!(CssColor::new("#FF00AA").unwrap().as_str(), "#ff00aa");
    assert_eq!(CssColor::new("Red").unwrap().as_str(), "red");
}

#[test]
fn css_color_errors() {
    assert_eq!(CssColor::new("#ff00fg").unwrap_err(), ColorError::InvalidColorLiteral);
    assert_eq!(CssColor::new("red1").unwrap_err(), ColorError::InvalidColorLiteral);
    assert_eq!(CssColor::new("#").unwrap_err(), ColorError::InvalidColorLiteral);
    assert_eq!(CssColor::new("").unwrap_err(), ColorError::InvalidColorLiteral);
    assert_eq!(CssColor::new("##ff").unwrap_err(), ColorError::InvalidColorLiteral);
}

#[test]
fn css_color_accepts_non_ascii_letters() {
    assert_eq!(CssColor::new("Grün").unwrap().as_str(), "grün");
}

#[test]
fn var_color_errors() {
    assert_eq!(VarColor::new("--soar fan").unwrap_err(), ColorError::InvalidVariableName);
    assert_eq!(VarColor::new("").unwrap_err(), ColorError::InvalidVariableName);
    assert_eq!(VarColor::new("a_b").unwrap_err(), ColorError::InvalidVariableName);
    assert!(VarColor::new("Accent2").is_ok());
}

#[test]
fn literal_checks_take_text_as_it_is() {
    assert!(is_valid_color_literal(&"#A0f".chars().collect()));
    assert!(!is_valid_color_literal(&"#".chars().collect()));
    assert!(!is_valid_color_literal(&"blue2".chars().collect()));
    assert!(is_valid_var_name(&"--a-1".chars().collect()));
    assert!(!is_valid_var_name(&"a.b".chars().collect()));
}
