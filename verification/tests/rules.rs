use template_layout::validate::{
    check_font, check_image_layer, check_text_layer, is_css_color, same_text, validate_font,
    ValidationError,
};

#[test]
fn text_layer_rules_in_order() {
    assert_eq!(check_text_layer("text", "hello"), Ok(()));
    assert_eq!(check_text_layer("image", "hello"), Err(ValidationError::InvalidTextLayerType));
    assert_eq!(check_text_layer("Text", ""), Err(ValidationError::InvalidTextLayerType));
    assert_eq!(check_text_layer("text", ""), Err(ValidationError::EmptyText));
    assert_eq!(check_text_layer("text", " "), Ok(()));
}

#[test]
fn image_layer_rules_in_order() {
    assert_eq!(check_image_layer("image", true), Ok(()));
    assert_eq!(check_image_layer("text", true), Err(ValidationError::InvalidImageLayerType));
    assert_eq!(check_image_layer("text", false), Err(ValidationError::InvalidImageLayerType));
    assert_eq!(check_image_layer("image", false), Err(ValidationError::NonPositiveScale));
}

#[test]
fn css_colors_are_told_apart() {
    for good in ["#ff0", "#FF0000", "red", "  Red ", "transparent", "rgb(255, 0, 0)",
        "rgba(0,0,0,0.5)", "hsl(360deg,100%,50%)", "ff0000"]
    {
        assert!(is_css_color(good), "{}", good);
    }
    for bad in ["", "#ff", "#gggggg", "no such colour", "rgb(1,2)", "cmyk(1,2,3,4)", "#\u{e9}\u{e9}"] {
        assert!(!is_css_color(bad), "{}", bad);
    }
}

#[test]
fn font_rules_in_order() {
    assert_eq!(validate_font("#336699", true), Ok(()));
    assert_eq!(validate_font("#336699", false), Err(ValidationError::NonPositiveFontSize));
    let parser_said = csscolorparser::parse("#33669").unwrap_err();
    assert_eq!(validate_font("#33669", true), Err(ValidationError::InvalidColor(parser_said)));
    assert_eq!(validate_font("#33669", false), Err(ValidationError::InvalidColor(parser_said)));
    let function = csscolorparser::parse("cmyk(1,2,3,4)").unwrap_err();
    assert_eq!(validate_font("cmyk(1,2,3,4)", true), Err(ValidationError::InvalidColor(function)));
    assert_ne!(parser_said, function);
}

#[test]
fn font_verdict_from_parser_outcome() {
    let reason = csscolorparser::parse("?").unwrap_err();
    assert_eq!(check_font(Ok(()), true), Ok(()));
    assert_eq!(check_font(Ok(()), false), Err(ValidationError::NonPositiveFontSize));
    assert_eq!(check_font(Err(reason), true), Err(ValidationError::InvalidColor(reason)));
    assert_eq!(check_font(Err(reason), false), Err(ValidationError::InvalidColor(reason)));
}

#[test]
fn texts_compare_by_characters() {
    assert!(same_text("text", "text"));
    assert!(same_text("", ""));
    assert!(!same_text("text", "Text"));
    assert!(!same_text("text", "text "));
}
