use wrp_native::palette::extract_colors;

#[test]
fn dark_variant_is_preferred_over_default() {
    let text = "{\"colors\":{\"primary\":{\"dark\":\"#112233\",\"default\":\"#000000\"}}}";
    let colors = extract_colors(text).unwrap();
    assert_eq!(colors.len(), 1);
    assert_eq!(colors[0].name, "primary");
    assert_eq!(colors[0].value, "#112233");
}

#[test]
fn default_variant_backs_up_a_missing_dark() {
    let text = "{\"colors\":{\"primary\":{\"default\":\"#000000\",\"light\":\"#ffffff\"}}}";
    let colors = extract_colors(text).unwrap();
    assert_eq!(colors[0].value, "#000000");
}

#[test]
fn bare_string_value_is_used_directly() {
    let text = "{\"colors\":{\"primary\":\"#aabbcc\"}}";
    let colors = extract_colors(text).unwrap();
    assert_eq!(colors[0].value, "#aabbcc");
}

#[test]
fn role_without_usable_value_is_skipped() {
    let text = "{\"colors\":{\"odd\":{\"light\":\"#ffffff\"},\"kept\":\"#123456\"}}";
    let colors = extract_colors(text).unwrap();
    assert_eq!(colors.len(), 1);
    assert_eq!(colors[0].name, "kept");
    assert_eq!(colors[0].value, "#123456");
}

#[test]
fn several_roles_come_out_in_parsed_order() {
    let text = "{\"colors\":{\"b\":\"#02\",\"a\":\"#01\"}}";
    let colors = extract_colors(text).unwrap();
    assert_eq!(colors.len(), 2);
    assert_eq!(colors[0].name, "a");
    assert_eq!(colors[1].name, "b");
}

#[test]
fn invalid_json_yields_nothing() {
    assert!(extract_colors("nonsense").is_none());
    assert!(extract_colors("").is_none());
}

#[test]
fn report_without_colors_object_yields_nothing() {
    assert!(extract_colors("{\"palette\":{}}").is_none());
    assert!(extract_colors("{\"colors\":7}").is_none());
}

#[test]
fn empty_colors_object_yields_an_empty_mapping() {
    let colors = extract_colors("{\"colors\":{}}").unwrap();
    assert!(colors.is_empty());
}
