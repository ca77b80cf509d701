use template_layout::model::{LayerDimensions, TextAlignment};
use template_layout::text::{fill_placeholders, measure_glyphs, replace_all, GlyphBox};

fn glyph(width: i32, height: i32) -> GlyphBox {
    GlyphBox { width, height }
}

#[test]
fn run_is_as_wide_as_all_and_as_tall_as_the_tallest() {
    let boxes = vec![glyph(7, 10), glyph(3, 14), glyph(9, 2)];
    assert_eq!(measure_glyphs(&boxes), Some(LayerDimensions { width: 19, height: 14 }));
    assert_eq!(measure_glyphs(&Vec::new()), Some(LayerDimensions { width: 0, height: 0 }));
    assert_eq!(measure_glyphs(&vec![glyph(0, -5)]), Some(LayerDimensions { width: 0, height: 0 }));
}

#[test]
fn run_that_no_dimension_holds() {
    assert_eq!(measure_glyphs(&vec![glyph(-1, 4)]), None);
    assert_eq!(
        measure_glyphs(&vec![glyph(-1, 4), glyph(1, 2)]),
        Some(LayerDimensions { width: 0, height: 4 })
    );
    let wide = vec![glyph(i32::MAX, 1), glyph(i32::MAX, 1), glyph(1, 1)];
    assert_eq!(measure_glyphs(&wide), Some(LayerDimensions { width: u32::MAX, height: 1 }));
    let wider = vec![glyph(i32::MAX, 1), glyph(i32::MAX, 1), glyph(2, 1)];
    assert_eq!(measure_glyphs(&wider), None);
}

#[test]
fn text_starts_by_alignment() {
    assert_eq!(TextAlignment::Left.start_column(100, 31), 100);
    assert_eq!(TextAlignment::Center.start_column(100, 31), 85);
    assert_eq!(TextAlignment::Right.start_column(100, 31), 69);
    assert_eq!(TextAlignment::Center.start_column(10, 31), 0);
    assert_eq!(TextAlignment::Right.start_column(10, 31), 0);
    assert_eq!(TextAlignment::Right.start_column(31, 31), 0);
    assert_eq!(TextAlignment::Center.start_column(0, u32::MAX), 0);
}

#[test]
fn placeholder_is_filled() {
    assert_eq!(fill_placeholders("Hello {{name}}!"), "Hello World!");
    assert_eq!(fill_placeholders("{{name}}{{name}}"), "WorldWorld");
    assert_eq!(fill_placeholders("{{name}} and {{ name }}"), "World and {{ name }}");
    assert_eq!(fill_placeholders("{{{name}}}"), "{World}");
    assert_eq!(fill_placeholders("{{name}"), "{{name}");
    assert_eq!(fill_placeholders("no placeholder"), "no placeholder");
    assert_eq!(fill_placeholders(""), "");
    assert_eq!(fill_placeholders("caf\u{e9} {{name}} \u{1F600}"), "caf\u{e9} World \u{1F600}");
}

#[test]
fn replacement_reads_from_the_left() {
    assert_eq!(replace_all("aaa", "aa", "b"), "ba");
    assert_eq!(replace_all("aaaa", "aa", "b"), "bb");
    assert_eq!(replace_all("abc", "", "x"), "abc");
    assert_eq!(replace_all("abc", "abcd", "x"), "abc");
    assert_eq!(replace_all("abc", "abc", ""), "");
    assert_eq!(replace_all("abcabc", "bc", "-long-"), "a-long-a-long-");
    assert_eq!(replace_all("xay", "a", "a"), "xay");
}
