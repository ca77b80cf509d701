use template_layout::canvas::{draw_decoration, draw_horizontal_line, Canvas, Rgba8};
use template_layout::model::FontDecoration;

const WHITE: Rgba8 = Rgba8 { r: 255, g: 255, b: 255, a: 255 };
const INK: Rgba8 = Rgba8 { r: 10, g: 20, b: 30, a: 40 };

fn painted(canvas: &Canvas) -> Vec<(u32, u32)> {
    let mut found = Vec::new();
    for y in 0..canvas.height() {
        for x in 0..canvas.width() {
            match canvas.pixel(x, y) {
                Some(color) if color == INK => found.push((x, y)),
                Some(color) => assert_eq!(color, WHITE),
                None => panic!("pixel inside the canvas is missing"),
            }
        }
    }
    found
}

#[test]
fn filled_canvas_has_one_colour() {
    let canvas = Canvas::filled(4, 3, WHITE).unwrap();
    assert_eq!((canvas.width(), canvas.height()), (4, 3));
    assert!(painted(&canvas).is_empty());
    assert_eq!(canvas.pixel(3, 2), Some(WHITE));
    assert_eq!(canvas.pixel(4, 2), None);
    assert_eq!(canvas.pixel(3, 3), None);
    let empty = Canvas::filled(0, 0, INK).unwrap();
    assert_eq!((empty.width(), empty.height()), (0, 0));
    assert_eq!(empty.pixel(0, 0), None);
}

#[test]
fn plot_sets_one_pixel_and_clips() {
    let mut canvas = Canvas::filled(3, 2, WHITE).unwrap();
    canvas.plot(1, 1, INK);
    canvas.plot(3, 0, INK);
    canvas.plot(0, 2, INK);
    canvas.plot(u32::MAX, u32::MAX, INK);
    assert_eq!(painted(&canvas), vec![(1, 1)]);
}

#[test]
fn plot_at_clips_on_every_side() {
    let mut canvas = Canvas::filled(3, 2, WHITE).unwrap();
    canvas.plot_at(2, 1, INK);
    canvas.plot_at(-1, 0, INK);
    canvas.plot_at(0, -1, INK);
    canvas.plot_at(3, 1, INK);
    canvas.plot_at(2, 2, INK);
    canvas.plot_at(i64::MIN, i64::MAX, INK);
    canvas.plot_at(i64::from(u32::MAX) + 1, 0, INK);
    assert_eq!(painted(&canvas), vec![(2, 1)]);
    canvas.plot_at(0, 0, INK);
    assert_eq!(painted(&canvas), vec![(0, 0), (2, 1)]);
}

#[test]
fn line_covers_its_rectangle() {
    let mut canvas = Canvas::filled(6, 5, WHITE).unwrap();
    draw_horizontal_line(&mut canvas, INK, 1, 2, 3, 2);
    assert_eq!(painted(&canvas), vec![(1, 2), (2, 2), (3, 2), (1, 3), (2, 3), (3, 3)]);
}

#[test]
fn line_is_clipped_at_the_edges() {
    let mut canvas = Canvas::filled(4, 3, WHITE).unwrap();
    draw_horizontal_line(&mut canvas, INK, 2, 1, 10, 10);
    assert_eq!(painted(&canvas), vec![(2, 1), (3, 1), (2, 2), (3, 2)]);
    let mut far = Canvas::filled(4, 3, WHITE).unwrap();
    draw_horizontal_line(&mut far, INK, 4, 0, 5, 5);
    draw_horizontal_line(&mut far, INK, 0, 3, 5, 5);
    draw_horizontal_line(&mut far, INK, u32::MAX, u32::MAX, u32::MAX, u32::MAX);
    draw_horizontal_line(&mut far, INK, 0, 0, 0, 3);
    draw_horizontal_line(&mut far, INK, 0, 0, 3, 0);
    assert!(painted(&far).is_empty());
    let mut edge = Canvas::filled(4, 3, WHITE).unwrap();
    draw_horizontal_line(&mut edge, INK, 3, u32::MAX - 1, u32::MAX, u32::MAX);
    assert!(painted(&edge).is_empty());
    draw_horizontal_line(&mut edge, INK, 3, 2, u32::MAX, u32::MAX);
    assert_eq!(painted(&edge), vec![(3, 2)]);
}

#[test]
fn decoration_rows() {
    // text at row 4, 6 tall, line 1 thick
    let mut under = Canvas::filled(3, 20, WHITE).unwrap();
    draw_decoration(&mut under, FontDecoration::Underline, INK, 0, 4, 2, 6, 1);
    assert_eq!(painted(&under), vec![(0, 11), (1, 11)]);
    let mut through = Canvas::filled(3, 20, WHITE).unwrap();
    draw_decoration(&mut through, FontDecoration::LineThrough, INK, 0, 4, 2, 7, 1);
    assert_eq!(painted(&through), vec![(0, 7), (1, 7)]);
    let mut over = Canvas::filled(3, 20, WHITE).unwrap();
    draw_decoration(&mut over, FontDecoration::Overline, INK, 0, 4, 2, 6, 1);
    assert_eq!(painted(&over), vec![(0, 2), (1, 2)]);
    let mut plain = Canvas::filled(3, 20, WHITE).unwrap();
    draw_decoration(&mut plain, FontDecoration::Plain, INK, 0, 4, 2, 6, 1);
    assert!(painted(&plain).is_empty());
}

#[test]
fn decoration_at_the_limits() {
    let mut top = Canvas::filled(2, 6, WHITE).unwrap();
    draw_decoration(&mut top, FontDecoration::Overline, INK, 0, 3, 1, 6, 2);
    assert_eq!(painted(&top), vec![(0, 0), (0, 1)]);
    let mut thick = Canvas::filled(2, 6, WHITE).unwrap();
    draw_decoration(&mut thick, FontDecoration::Overline, INK, 0, 5, 1, 6, u32::MAX);
    assert_eq!(painted(&thick).len(), 6);
    let mut beyond = Canvas::filled(2, 6, WHITE).unwrap();
    draw_decoration(&mut beyond, FontDecoration::Underline, INK, 0, u32::MAX, 2, u32::MAX, 1);
    draw_decoration(&mut beyond, FontDecoration::LineThrough, INK, 0, u32::MAX, 2, u32::MAX, 1);
    assert!(painted(&beyond).is_empty());
}

#[test]
fn bytes_round_trip() {
    let bytes: Vec<u8> = (0..24).collect();
    let canvas = Canvas::from_bytes(3, 2, bytes.clone()).unwrap();
    assert_eq!((canvas.width(), canvas.height()), (3, 2));
    assert_eq!(canvas.pixel(0, 0), Some(Rgba8 { r: 0, g: 1, b: 2, a: 3 }));
    assert_eq!(canvas.pixel(2, 0), Some(Rgba8 { r: 8, g: 9, b: 10, a: 11 }));
    assert_eq!(canvas.pixel(1, 1), Some(Rgba8 { r: 16, g: 17, b: 18, a: 19 }));
    assert_eq!(canvas.into_bytes(), bytes);
    assert!(Canvas::from_bytes(3, 2, vec![0; 23]).is_none());
    assert!(Canvas::from_bytes(0, 9, Vec::new()).is_some());
    let mut drawn = Canvas::from_bytes(2, 1, vec![0; 8]).unwrap();
    drawn.plot(1, 0, INK);
    assert_eq!(drawn.into_bytes(), vec![0, 0, 0, 0, 10, 20, 30, 40]);
}

#[test]
fn line_past_the_corner_leaves_the_rest_alone() {
    let clear = Rgba8 { r: 0, g: 0, b: 0, a: 0 };
    let red = Rgba8 { r: 255, g: 0, b: 0, a: 255 };
    let mut canvas = Canvas::filled(4, 4, clear).unwrap();
    draw_horizontal_line(&mut canvas, red, 2, 3, 5, 2);
    assert_eq!((canvas.width(), canvas.height()), (4, 4));
    let mut kept = 0;
    for y in 0..4 {
        for x in 0..4 {
            if (x, y) == (2, 3) || (x, y) == (3, 3) {
                assert_eq!(canvas.pixel(x, y), Some(red));
            } else {
                assert_eq!(canvas.pixel(x, y), Some(clear));
                kept += 1;
            }
        }
    }
    assert_eq!(kept, 14);
}

#[test]
fn every_pixel_off_the_line_keeps_its_colour() {
    let bytes: Vec<u8> = (0..96).collect();
    let before = Canvas::from_bytes(6, 4, bytes.clone()).unwrap();
    let mut canvas = Canvas::from_bytes(6, 4, bytes).unwrap();
    draw_horizontal_line(&mut canvas, INK, 1, 1, 3, 2);
    for y in 0..4u32 {
        for x in 0..6u32 {
            let on_line = (1..4).contains(&x) && (1..3).contains(&y);
            let expected = if on_line { Some(INK) } else { before.pixel(x, y) };
            assert_eq!(canvas.pixel(x, y), expected);
        }
    }
    draw_decoration(&mut canvas, FontDecoration::Overline, WHITE, 4, 3, 2, 1, 1);
    for y in 0..4u32 {
        for x in 0..6u32 {
            let expected = if (x, y) == (4, 1) || (x, y) == (5, 1) {
                Some(WHITE)
            } else if (1..4).contains(&x) && (1..3).contains(&y) {
                Some(INK)
            } else {
                before.pixel(x, y)
            };
            assert_eq!(canvas.pixel(x, y), expected);
        }
    }
}

#[test]
fn canvas_whose_row_cannot_be_counted() {
    // four bytes to a pixel: a row of 2^30 pixels takes 2^32 bytes, which a
    // 32-bit count does not hold, however few rows there are
    let countable = 4 * 0x4000_0000u64 <= usize::MAX as u64;
    assert_eq!(Canvas::filled(0x4000_0000, 0, WHITE).is_some(), countable);
    assert_eq!(Canvas::from_bytes(0x4000_0000, 0, Vec::new()).is_some(), countable);
    assert!(Canvas::filled(0x3FFF_FFFF, 0, WHITE).is_some());
    assert!(Canvas::from_bytes(0x3FFF_FFFF, 0, Vec::new()).is_some());
    assert!(Canvas::from_bytes(0, u32::MAX, Vec::new()).is_some());
    assert!(Canvas::filled(0, u32::MAX, WHITE).is_some());
    assert!(Canvas::filled(u32::MAX, u32::MAX, WHITE).is_none());
    assert!(Canvas::from_bytes(u32::MAX, u32::MAX, vec![0; 16]).is_none());
    assert!(Canvas::from_bytes(2, 2, vec![0; 15]).is_none());
    assert!(Canvas::from_bytes(2, 2, vec![0; 16]).is_some());
}
