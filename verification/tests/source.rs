use template_layout::source::{
    has_suffix, is_ai_source, AiData, DesignMetafield, LayerKind, NamedLayer,
};

fn field(namespace: &str, value: &str) -> DesignMetafield {
    DesignMetafield { namespace: namespace.to_string(), value: value.to_string() }
}

#[test]
fn layers_are_the_fields_of_the_layer_namespace() {
    let fields = vec![
        field("layer", "title"),
        field("meta", "author"),
        field("Layer", "upper"),
        field("layer", "subtitle"),
        field("", "empty"),
        field("layer", "title"),
    ];
    let data = AiData::new(&fields);
    assert_eq!(data.layer_count(), 3);
    assert_eq!(data.get_layer_by_name("title"), Some(0));
    assert_eq!(data.get_layer_by_name("subtitle"), Some(1));
    assert_eq!(data.get_layer_by_name("author"), None);
    assert_eq!(data.get_layer_by_name("upper"), None);
    assert_eq!(data.get_layer_by_name(""), None);
}

#[test]
fn source_without_fields_has_no_layers() {
    let data = AiData::new(&Vec::new());
    assert_eq!(data.layer_count(), 0);
    assert_eq!(data.get_layer_by_name("title"), None);
}

#[test]
fn source_paths_end_in_ai() {
    assert!(is_ai_source("design.ai"));
    assert!(is_ai_source(".ai"));
    assert!(is_ai_source("dir/with.dots/file.json.ai"));
    assert!(!is_ai_source("design.AI"));
    assert!(!is_ai_source("design.ai "));
    assert!(!is_ai_source("design.json"));
    assert!(!is_ai_source("ai"));
    assert!(!is_ai_source(""));
    assert!(is_ai_source("d\u{e9}sign\u{1F600}.ai"));
}

#[test]
fn suffix_of_text() {
    assert!(has_suffix("abc", ""));
    assert!(has_suffix("", ""));
    assert!(has_suffix("abc", "abc"));
    assert!(has_suffix("abc", "c"));
    assert!(!has_suffix("abc", "ab"));
    assert!(!has_suffix("bc", "abc"));
    assert!(has_suffix("na\u{ef}ve", "\u{ef}ve"));
    assert!(!has_suffix("naive", "\u{ef}ve"));
}

fn named(kind: LayerKind, name: &str) -> NamedLayer {
    NamedLayer { kind, name: name.to_string() }
}

#[test]
fn only_text_layers_need_the_source() {
    let data = AiData::new(&vec![field("layer", "title"), field("layer", "body")]);
    let covered = vec![
        named(LayerKind::Image, "logo"),
        named(LayerKind::Text, "body"),
        named(LayerKind::Text, "title"),
        named(LayerKind::Image, "title"),
    ];
    assert_eq!(data.first_uncovered(&covered), None);
    let uncovered = vec![
        named(LayerKind::Image, "logo"),
        named(LayerKind::Text, "title"),
        named(LayerKind::Text, "logo"),
        named(LayerKind::Text, "footer"),
    ];
    assert_eq!(data.first_uncovered(&uncovered), Some(2));
    assert_eq!(data.first_uncovered(&Vec::new()), None);
    let nothing = AiData::new(&Vec::new());
    assert_eq!(nothing.first_uncovered(&covered), Some(1));
    assert_eq!(nothing.first_uncovered(&vec![named(LayerKind::Image, "logo")]), None);
}
