//! Straight lines on the canvas that the layers are drawn on.
//!
//! The canvas is an RGBA image of the crate `image`. What it holds is spoken
//! of here as a map from pixel coordinates to colours, together with its
//! width and height. Only a handful of the image's methods are called, each
//! through a function that says what the method does to that map.

use vstd::prelude::*;
use image::{Rgba, RgbaImage};
use crate::model::FontDecoration;

verus! {

/// A colour with an alpha channel, eight bits each.
#[derive(Clone, Copy, Debug, PartialEq, Eq)]
pub struct Rgba8 {
    pub r: u8,
    pub g: u8,
    pub b: u8,
    pub a: u8,
}

/// An RGBA image to draw on.
///
/// It holds an `image::RgbaImage`, which is not looked into: what is known
/// of a canvas is what [`canvas_pixels`] and [`canvas_extent`] say of it.
#[verifier::external_body]
pub struct Canvas {
    image: RgbaImage,
}

/// The colour of each pixel of the canvas, by column and row.
pub uninterp spec fn canvas_pixels(canvas: Canvas) -> Map<(int, int), Rgba8>;

/// Width and height of the canvas, in this order.
pub uninterp spec fn canvas_extent(canvas: Canvas) -> (int, int);

/// The pixel in column `x` of row `y` of an image that is `width` wide and
/// stored row by row, four bytes to a pixel: red, green, blue, alpha.
pub open spec fn pixel_in_bytes(bytes: Seq<u8>, width: int, x: int, y: int) -> Rgba8 {
    let at = 4 * (y * width + x);
    Rgba8 { r: bytes[at], g: bytes[at + 1], b: bytes[at + 2], a: bytes[at + 3] }
}

/// Whether an image of the given size can be stored in `room` bytes: whether
/// the bytes of one row can be counted in a `usize` and the bytes of all
/// rows are no more than `room`. A pixel takes four bytes.
pub open spec fn storable(width: int, height: int, room: int) -> bool {
    4 * width <= usize::MAX && 4 * width * height <= room
}

/// Whether column `x` of row `y` lies on a canvas of the given extent.
pub open spec fn on_canvas(extent: (int, int), x: int, y: int) -> bool {
    0 <= x < extent.0 && 0 <= y < extent.1
}

/// Calls `ImageBuffer::width`, which returns the width the image was made
/// with.
#[verifier::external_body]
fn width_of(canvas: &Canvas) -> (width: u32)
    ensures
        width == canvas_extent(*canvas).0,
{
    canvas.image.width()
}

/// Calls `ImageBuffer::height`, which returns the height the image was made
/// with.
#[verifier::external_body]
fn height_of(canvas: &Canvas) -> (height: u32)
    ensures
        height == canvas_extent(*canvas).1,
{
    canvas.image.height()
}

/// Calls `ImageBuffer::put_pixel`, which overwrites the pixel in column `x`
/// of row `y` and leaves every other pixel and the size of the image as
/// they are. The method panics outside the image, so that is left out.
#[verifier::external_body]
fn put_pixel(canvas: &mut Canvas, x: u32, y: u32, color: Rgba8)
    requires
        x < canvas_extent(*old(canvas)).0,
        y < canvas_extent(*old(canvas)).1,
    ensures
        canvas_extent(*final(canvas)) == canvas_extent(*old(canvas)),
        canvas_pixels(*final(canvas)) == canvas_pixels(*old(canvas)).insert(
            (x as int, y as int),
            color,
        ),
{
    canvas.image.put_pixel(x, y, Rgba([color.r, color.g, color.b, color.a]))
}

/// Calls `ImageBuffer::get_pixel`, which returns the pixel in column `x` of
/// row `y`. The method panics outside the image, so that is left out.
#[verifier::external_body]
fn get_pixel(canvas: &Canvas, x: u32, y: u32) -> (color: Rgba8)
    requires
        x < canvas_extent(*canvas).0,
        y < canvas_extent(*canvas).1,
    ensures
        color == canvas_pixels(*canvas)[(x as int, y as int)],
{
    let Rgba([r, g, b, a]) = *canvas.image.get_pixel(x, y);
    Rgba8 { r, g, b, a }
}

/// Calls `ImageBuffer::from_pixel`, which makes an image of the given size
/// with every pixel of the given colour. It counts the bytes in a `usize`,
/// first those of one row and then those of all rows, and panics where
/// either count is too large, or where all bytes together are more than a
/// vector holds; that is left out.
#[verifier::external_body]
fn from_pixel(width: u32, height: u32, color: Rgba8) -> (canvas: Canvas)
    requires
        storable(width as int, height as int, isize::MAX as int),
    ensures
        canvas_extent(canvas) == (width as int, height as int),
        forall|x: int, y: int|
            on_canvas((width as int, height as int), x, y) ==> #[trigger] canvas_pixels(canvas)[(
                x,
                y,
            )] == color,
{
    Canvas { image: RgbaImage::from_pixel(width, height, Rgba([color.r, color.g, color.b, color.a])) }
}

/// Calls `ImageBuffer::from_raw`, which takes the bytes for the pixels of an
/// image of the given size, row by row and four bytes to a pixel. It counts
/// the bytes in a `usize`, first those of one row and then those of all
/// rows, and returns nothing where the bytes of one row are too many to
/// count or where the bytes given are too few for all rows.
#[verifier::external_body]
fn from_raw(width: u32, height: u32, bytes: Vec<u8>) -> (canvas: Option<Canvas>)
    ensures
        canvas is Some <==> storable(width as int, height as int, bytes@.len() as int),
        canvas matches Some(c) ==> canvas_extent(c) == (width as int, height as int),
        canvas matches Some(c) ==> forall|x: int, y: int|
            on_canvas((width as int, height as int), x, y) ==> #[trigger] canvas_pixels(c)[(x, y)]
                == pixel_in_bytes(bytes@, width as int, x, y),
{
    match RgbaImage::from_raw(width, height, bytes) {
        Some(image) => Some(Canvas { image }),
        None => None,
    }
}

/// Calls `ImageBuffer::into_raw`, which returns the bytes that the image
/// holds: those of its pixels, row by row and four bytes to a pixel, and
/// after them whatever else the image was made from.
#[verifier::external_body]
fn into_raw(canvas: Canvas) -> (bytes: Vec<u8>)
    ensures
        4 * canvas_extent(canvas).0 * canvas_extent(canvas).1 <= bytes@.len(),
        forall|x: int, y: int|
            on_canvas(canvas_extent(canvas), x, y) ==> #[trigger] pixel_in_bytes(
                bytes@,
                canvas_extent(canvas).0,
                x,
                y,
            ) == canvas_pixels(canvas)[(x, y)],
{
    canvas.image.into_raw()
}

/// Whether column `px` of row `py` lies in the rectangle that starts in
/// column `x` of row `y` and is `width` wide and `thickness` tall.
pub open spec fn in_line(px: int, py: int, x: int, y: int, width: int, thickness: int) -> bool {
    x <= px < x + width && y <= py < y + thickness
}

/// The colour in column `px` of row `py` after a line was drawn: `color`
/// where the line meets the canvas, and what was there everywhere else.
pub open spec fn after_line(
    pixels: Map<(int, int), Rgba8>,
    extent: (int, int),
    color: Rgba8,
    x: int,
    y: int,
    width: int,
    thickness: int,
    px: int,
    py: int,
) -> Rgba8 {
    if on_canvas(extent, px, py) && in_line(px, py, x, y, width, thickness) {
        color
    } else {
        pixels[(px, py)]
    }
}

/// The row that the decoration of a piece of text is drawn in, where the
/// text starts in row `y` and is `height` tall and the line is `thickness`
/// thick. Plain text has no such row.
///
/// An underline runs one thickness below the text, a line through it half
/// way down, and an overline two thicknesses above its top, or in row 0
/// where the text starts higher than that.
pub open spec fn decoration_row(decoration: FontDecoration, y: int, height: int, thickness: int)
    -> Option<int> {
    match decoration {
        FontDecoration::Plain => None,
        FontDecoration::Underline => Some(y + height + thickness),
        FontDecoration::LineThrough => Some(y + height / 2),
        FontDecoration::Overline => Some(
            if y > thickness * 2 {
                y - thickness * 2
            } else {
                0
            },
        ),
    }
}

/// The colour in column `px` of row `py` after the decoration of a piece of
/// text was drawn.
pub open spec fn after_decoration(
    pixels: Map<(int, int), Rgba8>,
    extent: (int, int),
    decoration: FontDecoration,
    color: Rgba8,
    x: int,
    y: int,
    width: int,
    height: int,
    thickness: int,
    px: int,
    py: int,
) -> Rgba8 {
    match decoration_row(decoration, y, height, thickness) {
        Some(row) => after_line(pixels, extent, color, x, row, width, thickness, px, py),
        None => pixels[(px, py)],
    }
}

impl Canvas {
    /// The colour of each pixel, by column and row.
    pub open spec fn pixels(self) -> Map<(int, int), Rgba8> {
        canvas_pixels(self)
    }

    /// Width and height, in this order.
    pub open spec fn extent(self) -> (int, int) {
        canvas_extent(self)
    }

    /// A canvas of the given size with every pixel of the given colour, or
    /// `None` where the bytes of one row are more than can be counted or the
    /// bytes of all rows are more than a vector holds.
    pub fn filled(width: u32, height: u32, color: Rgba8) -> (canvas: Option<Canvas>)
        ensures
            canvas is Some <==> storable(width as int, height as int, isize::MAX as int),
            canvas matches Some(c) ==> c.extent() == (width as int, height as int),
            canvas matches Some(c) ==> forall|x: int, y: int|
                on_canvas((width as int, height as int), x, y) ==> #[trigger] c.pixels()[(x, y)]
                    == color,
    {
        if 4 * (width as u64) > usize::MAX as u64 {
            return None;
        }
        assert(width * height <= 0xFFFF_FFFF * 0xFFFF_FFFF) by (nonlinear_arith)
            requires
                width <= 0xFFFF_FFFF,
                height <= 0xFFFF_FFFF,
        ;
        let area = width as u128 * height as u128;
        assert(4 * width * height == 4 * (width * height)) by (nonlinear_arith);
        if 4 * area <= isize::MAX as u128 {
            Some(from_pixel(width, height, color))
        } else {
            None
        }
    }

    /// The canvas whose pixels are the given bytes, row by row and four
    /// bytes to a pixel, or `None` where the bytes of one row are more than
    /// can be counted or the bytes given are too few for all rows.
    pub fn from_bytes(width: u32, height: u32, bytes: Vec<u8>) -> (canvas: Option<Canvas>)
        ensures
            canvas is Some <==> storable(width as int, height as int, bytes@.len() as int),
            canvas matches Some(c) ==> c.extent() == (width as int, height as int),
            canvas matches Some(c) ==> forall|x: int, y: int|
                on_canvas((width as int, height as int), x, y) ==> #[trigger] c.pixels()[(x, y)]
                    == pixel_in_bytes(bytes@, width as int, x, y),
    {
        from_raw(width, height, bytes)
    }

    /// The bytes of the pixels, row by row and four bytes to a pixel.
    pub fn into_bytes(self) -> (bytes: Vec<u8>)
        ensures
            4 * self.extent().0 * self.extent().1 <= bytes@.len(),
            forall|x: int, y: int|
                on_canvas(self.extent(), x, y) ==> #[trigger] pixel_in_bytes(
                    bytes@,
                    self.extent().0,
                    x,
                    y,
                ) == self.pixels()[(x, y)],
    {
        into_raw(self)
    }

    /// The number of columns.
    pub fn width(&self) -> (width: u32)
        ensures
            width == self.extent().0,
    {
        width_of(self)
    }

    /// The number of rows.
    pub fn height(&self) -> (height: u32)
        ensures
            height == self.extent().1,
    {
        height_of(self)
    }

    /// The colour in column `x` of row `y`, or `None` outside the canvas.
    pub fn pixel(&self, x: u32, y: u32) -> (color: Option<Rgba8>)
        ensures
            color == if on_canvas(self.extent(), x as int, y as int) {
                Some(self.pixels()[(x as int, y as int)])
            } else {
                None
            },
    {
        if x < width_of(self) && y < height_of(self) {
            Some(get_pixel(self, x, y))
        } else {
            None
        }
    }

    /// Sets the colour in column `x` of row `y`, which may lie on any side
    /// of the canvas. Outside the canvas nothing happens.
    pub fn plot_at(&mut self, x: i64, y: i64, color: Rgba8)
        ensures
            final(self).extent() == old(self).extent(),
            final(self).pixels() == if on_canvas(old(self).extent(), x as int, y as int) {
                old(self).pixels().insert((x as int, y as int), color)
            } else {
                old(self).pixels()
            },
    {
        if 0 <= x && x < width_of(self) as i64 && 0 <= y && y < height_of(self) as i64 {
            put_pixel(self, x as u32, y as u32, color);
        }
    }

    /// Sets the colour in column `x` of row `y`. Outside the canvas nothing
    /// happens.
    pub fn plot(&mut self, x: u32, y: u32, color: Rgba8)
        ensures
            final(self).extent() == old(self).extent(),
            final(self).pixels() == if on_canvas(old(self).extent(), x as int, y as int) {
                old(self).pixels().insert((x as int, y as int), color)
            } else {
                old(self).pixels()
            },
    {
        if x < width_of(self) && y < height_of(self) {
            put_pixel(self, x, y, color);
        }
    }
}

/// Draws a line that starts in column `x` of row `y` and is `width` wide and
/// `thickness` tall. What lies beyond the canvas is left out, and every
/// pixel off the line keeps its colour.
pub fn draw_horizontal_line(
    canvas: &mut Canvas,
    color: Rgba8,
    x: u32,
    y: u32,
    width: u32,
    thickness: u32,
)
    ensures
        final(canvas).extent() == old(canvas).extent(),
        forall|px: int, py: int| #[trigger]
            final(canvas).pixels()[(px, py)] == after_line(
                old(canvas).pixels(),
                old(canvas).extent(),
                color,
                x as int,
                y as int,
                width as int,
                thickness as int,
                px,
                py,
            ),
{
    let across = width_of(canvas);
    let down = height_of(canvas);
    let ghost before = canvas.pixels();
    let ghost extent = canvas.extent();
    let mut dy: u32 = 0;
    while dy < thickness && y as u64 + (dy as u64) < down as u64
        invariant
            dy <= thickness,
            canvas.extent() == extent,
            across == extent.0,
            down == extent.1,
            forall|px: int, py: int| #[trigger]
                canvas.pixels()[(px, py)] == after_line(
                    before,
                    extent,
                    color,
                    x as int,
                    y as int,
                    width as int,
                    dy as int,
                    px,
                    py,
                ),
        decreases thickness - dy,
    {
        let row: u32 = (y as u64 + dy as u64) as u32;
        let ghost above = canvas.pixels();
        let mut dx: u32 = 0;
        while dx < width && x as u64 + (dx as u64) < across as u64
            invariant
                dx <= width,
                row < down,
                canvas.extent() == extent,
                across == extent.0,
                down == extent.1,
                forall|px: int, py: int| #[trigger]
                    canvas.pixels()[(px, py)] == after_line(
                        above,
                        extent,
                        color,
                        x as int,
                        row as int,
                        dx as int,
                        1,
                        px,
                        py,
                    ),
            decreases width - dx,
        {
            let column: u32 = (x as u64 + dx as u64) as u32;
            let ghost so_far = canvas.pixels();
            put_pixel(canvas, column, row, color);
            proof {
                assert forall|px: int, py: int| #[trigger]
                    canvas.pixels()[(px, py)] == after_line(
                        above,
                        extent,
                        color,
                        x as int,
                        row as int,
                        dx + 1,
                        1,
                        px,
                        py,
                    ) by {
                    if (px, py) != (column as int, row as int) {
                        assert(canvas.pixels()[(px, py)] == so_far[(px, py)]);
                    }
                }
            }
            dx = dx + 1;
        }
        dy = dy + 1;
    }
}

/// Draws the decoration of a piece of text that starts in column `x` of row
/// `y` and is `width` wide and `height` tall, as a line that is `thickness`
/// thick. Plain text gets none, and every pixel off the line keeps its
/// colour.
pub fn draw_decoration(
    canvas: &mut Canvas,
    decoration: FontDecoration,
    color: Rgba8,
    x: u32,
    y: u32,
    width: u32,
    height: u32,
    thickness: u32,
)
    ensures
        final(canvas).extent() == old(canvas).extent(),
        forall|px: int, py: int| #[trigger]
            final(canvas).pixels()[(px, py)] == after_decoration(
                old(canvas).pixels(),
                old(canvas).extent(),
                decoration,
                color,
                x as int,
                y as int,
                width as int,
                height as int,
                thickness as int,
                px,
                py,
            ),
{
    let row: u64 = match decoration {
        FontDecoration::Plain => {
            return ;
        },
        FontDecoration::Underline => y as u64 + height as u64 + thickness as u64,
        FontDecoration::LineThrough => y as u64 + (height / 2) as u64,
        FontDecoration::Overline => {
            let twice = thickness as u64 * 2;
            if y as u64 > twice {
                y as u64 - twice
            } else {
                0
            }
        },
    };
    if row < height_of(canvas) as u64 {
        draw_horizontal_line(canvas, color, x, row as u32, width, thickness);
    }
}

} // verus!
