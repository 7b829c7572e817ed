use svg2svelte::attributes::{SvgAttributes, XmlAttributes};

#[test]
fn svg_attributes_test_serialize_no_attributes() {
    let attributes = SvgAttributes::new();
    let expected = r#"<svg>"#;

    assert_eq!(expected, attributes.serialize().as_str())
}

#[test]
fn svg_attributes_test_serialize_with_attributes() {
    let mut attributes = SvgAttributes::new();
    attributes.set_attribute("class", "SOAR");
    attributes.set_attribute("name", "fan");

    let serialized = attributes.serialize();

    let expected_1 = r#"<svg class='SOAR' name='fan'>"#;
    let expected_2 = r#"<svg name='fan' class='SOAR'>"#;

    assert!(serialized.as_str() == expected_1 || serialized.as_str() == expected_2);
}

#[test]
fn xml_attributes_test_serialize_no_attributes() {
    let attributes = XmlAttributes::new();
    let expected = r#"<svg>"#;

    assert_eq!(expected, attributes.serialize().as_str())
}

#[test]
fn xml_attributes_test_serialize_with_attributes() {
    let mut attributes = XmlAttributes::new();
    attributes.set_attribute("class".to_string(), "SOAR".to_string());
    attributes.set_attribute("name".to_string(), "fan".to_string());

    let serialized = attributes.serialize();

    let expected_1 = r#"<svg class='SOAR' name='fan'>"#;
    let expected_2 = r#"<svg name='fan' class='SOAR'>"#;

    assert!(serialized.as_str() == expected_1 || serialized.as_str() == expected_2);
}

#[test]
fn setting_a_name_twice_keeps_the_latest_value() {
    let mut attributes = SvgAttributes::new();
    attributes.set_attribute("class", "a");
    attributes.set_attribute("fill", "red");
    attributes.set_attribute("class", "b");

    assert_eq!(attributes.get_attribute("class").map(|v| v.as_str()), Some("b"));
    assert_eq!(attributes.serialize(), "<svg class='b' fill='red'>");
}

#[test]
fn missing_attribute_is_none() {
    let mut attributes = SvgAttributes::new();
    attributes.set_attribute("width", "10");

    assert_eq!(attributes.get_attribute("height"), None);
    assert_eq!(attributes.get_attribute("width").map(|v| v.as_str()), Some("10"));
}
