//! The size of a run of glyphs, where a piece of text starts, and what text
//! is drawn.

use vstd::prelude::*;
use vstd::string::{StrSliceExecFns, StringExecFns};
use crate::extent::{seq_max, seq_sum};
use crate::validate::same_text;
use crate::model::{LayerDimensions, TextAlignment};

verus! {

/// Width and height of the box that the pixels of one glyph fill.
#[derive(Clone, Copy, Debug, PartialEq, Eq)]
pub struct GlyphBox {
    pub width: i32,
    pub height: i32,
}

/// The widths of the boxes, in order.
pub open spec fn box_widths(boxes: Seq<GlyphBox>) -> Seq<int> {
    Seq::new(boxes.len(), |i: int| boxes[i].width as int)
}

/// The heights of the boxes, in order.
pub open spec fn box_heights(boxes: Seq<GlyphBox>) -> Seq<int> {
    Seq::new(boxes.len(), |i: int| boxes[i].height as int)
}

/// Column in which a piece of text starts that is `width` wide and placed at
/// column `x`: at `x` where it is aligned left, half its width before `x`
/// where it is centred, its whole width before `x` where it is aligned
/// right; and in column 0 where that would be left of the canvas.
pub open spec fn text_start(alignment: TextAlignment, x: int, width: int) -> int {
    let back = match alignment {
        TextAlignment::Left => 0,
        TextAlignment::Center => width / 2,
        TextAlignment::Right => width,
    };
    if x > back {
        x - back
    } else {
        0
    }
}

impl TextAlignment {
    /// See [`text_start`].
    pub fn start_column(&self, x: u32, width: u32) -> (column: u32)
        ensures
            column == text_start(*self, x as int, width as int),
            column <= x,
    {
        let back: u32 = match self {
            TextAlignment::Left => 0,
            TextAlignment::Center => width / 2,
            TextAlignment::Right => width,
        };
        if x > back {
            x - back
        } else {
            0
        }
    }
}

/// The size of a run of glyphs: as wide as all boxes together and as tall as
/// the tallest, and no size at all without boxes.
///
/// `None` where the widths come to less than nothing or to more than a
/// dimension can hold.
pub fn measure_glyphs(boxes: &Vec<GlyphBox>) -> (size: Option<LayerDimensions>)
    ensures
        size is Some <==> 0 <= seq_sum(box_widths(boxes@)) <= u32::MAX,
        size matches Some(d) ==> d.width == seq_sum(box_widths(boxes@)) && d.height == seq_max(
            box_heights(boxes@),
        ),
{
    let ghost w = box_widths(boxes@);
    let ghost h = box_heights(boxes@);
    let mut total: i128 = 0;
    let mut tallest: i32 = 0;
    let mut i: usize = 0;
    while i < boxes.len()
        invariant
            i <= boxes.len(),
            w == box_widths(boxes@),
            h == box_heights(boxes@),
            total == seq_sum(w.take(i as int)),
            -0x8000_0000 * i <= total <= 0x7FFF_FFFF * i,
            tallest == seq_max(h.take(i as int)),
            0 <= tallest,
        decreases boxes.len() - i,
    {
        let glyph = boxes[i];
        proof {
            assert(w.take(i + 1).drop_last() =~= w.take(i as int));
            assert(w.take(i + 1).last() == glyph.width);
            assert(h.take(i + 1).drop_last() =~= h.take(i as int));
            assert(h.take(i + 1).last() == glyph.height);
        }
        total = total + glyph.width as i128;
        if glyph.height > tallest {
            tallest = glyph.height;
        }
        i = i + 1;
    }
    proof {
        assert(w.take(boxes.len() as int) =~= w);
        assert(h.take(boxes.len() as int) =~= h);
    }
    if 0 <= total && total <= u32::MAX as i128 {
        Some(LayerDimensions { width: total as u32, height: tallest as u32 })
    } else {
        None
    }
}

/// The text with every occurrence of `from` replaced by `to`, read from the
/// left; an occurrence that starts inside another one does not count. An
/// empty `from` occurs nowhere.
pub open spec fn replaced(text: Seq<char>, from: Seq<char>, to: Seq<char>) -> Seq<char>
    decreases text.len(),
{
    if from.len() == 0 || text.len() < from.len() {
        text
    } else if text.take(from.len() as int) == from {
        to + replaced(text.skip(from.len() as int), from, to)
    } else {
        seq![text[0]] + replaced(text.skip(1), from, to)
    }
}

/// The text that is drawn for the text of a layer: the text with every
/// `{{name}}` replaced by `World`.
pub open spec fn placeholders_filled(text: Seq<char>) -> Seq<char> {
    replaced(text, "{{name}}"@, "World"@)
}

/// See [`replaced`].
pub fn replace_all(text: &str, from: &str, to: &str) -> (out: String)
    ensures
        out@ == replaced(text@, from@, to@),
{
    let n = text.unicode_len();
    let m = from.unicode_len();
    if m == 0 {
        return String::from_str(text);
    }
    let mut out = String::new();
    let mut i: usize = 0;
    proof {
        assert(text@.skip(0) =~= text@);
        assert(out@ + replaced(text@, from@, to@) =~= replaced(text@, from@, to@));
    }
    while n - i >= m
        invariant
            0 < m,
            i <= n,
            n == text@.len(),
            m == from@.len(),
            out@ + replaced(text@.skip(i as int), from@, to@) == replaced(text@, from@, to@),
        decreases n - i,
    {
        let ghost rest = text@.skip(i as int);
        let ghost done = out@;
        if same_text(text.substring_char(i, i + m), from) {
            proof {
                assert(rest.take(m as int) =~= text@.subrange(i as int, i + m));
                assert(rest.skip(m as int) =~= text@.skip(i + m));
                assert((done + to@) + replaced(text@.skip(i + m), from@, to@) =~= done + (to@
                    + replaced(text@.skip(i + m), from@, to@)));
            }
            out.append(to);
            i = i + m;
        } else {
            proof {
                assert(rest.take(m as int) =~= text@.subrange(i as int, i + m));
                assert(rest.skip(1) =~= text@.skip(i + 1));
                assert(text@.subrange(i as int, i + 1) =~= seq![rest[0]]);
                assert((done + seq![rest[0]]) + replaced(text@.skip(i + 1), from@, to@) =~= done + (
                seq![rest[0]] + replaced(text@.skip(i + 1), from@, to@)));
            }
            out.append(text.substring_char(i, i + 1));
            i = i + 1;
        }
    }
    proof {
        assert(text@.subrange(i as int, n as int) =~= text@.skip(i as int));
    }
    out.append(text.substring_char(i, n));
    out
}

/// See [`placeholders_filled`].
pub fn fill_placeholders(text: &str) -> (out: String)
    ensures
        out@ == placeholders_filled(text@),
{
    replace_all(text, "{{name}}", "World")
}

} // verus!
