//! Placing the members of a group.
//!
//! The position of every item is defined here as a formula over the policy
//! and the measured sizes, one coordinate at a time and in unbounded
//! integers. The functions that compute positions return what the formulas
//! say, for every input whose result fits the coordinates of a position.
//!
//! Three steps lead to a coordinate. The extent of the content is taken (see
//! the module `extent`). The container is the bounds of the distribution
//! where it has bounds, else the content itself, and the alignment moves the
//! base of the group by its share of the container's free space. Then the
//! items are put down: along a line from the base, each after the one
//! before, with the space that the mode in force on that axis gives; across
//! a line each by itself, aligned in the container; in a grid row by row.

use vstd::prelude::*;
use vstd::arithmetic::div_mod::{lemma_fundamental_div_mod, lemma_fundamental_div_mod_converse};
use crate::extent::{
    lane_sum, lane_sum_of, row_count, seq_sum, sum_prefix, CONTENT_LIMIT,
};
use crate::model::{
    lengths, placements, Anchor, Axis, DistributionBounds, GroupJustification, GroupLayout,
    LayoutType, MeasuredLayer, Placement, Position, RelativeTo,
};
use crate::spacing::{
    aligned_shift, axis_spacing, between_space, leading_space, mode_in_force, pick_mode, shift_of,
    slack, slack_of,
};

verus! {

impl DistributionBounds {
    /// The size of the frame along `axis`.
    pub open spec fn along(self, axis: Axis) -> int {
        match axis {
            Axis::Horizontal => self.width as int,
            Axis::Vertical => self.height as int,
        }
    }
}

impl GroupLayout {
    /// The coordinate of the group's declared position along `axis`.
    pub open spec fn origin(self, axis: Axis) -> int {
        match axis {
            Axis::Horizontal => self.position.x as int,
            Axis::Vertical => self.position.y as int,
        }
    }

    /// The bounds that the distribution sets, if it sets any.
    pub open spec fn bounds(self) -> Option<DistributionBounds> {
        match self.distribution {
            Some(config) => config.bounds,
            None => None,
        }
    }

    /// Extent of the container along `axis`: that of the bounds where there
    /// are bounds, else that of the content.
    pub open spec fn container_extent(self, items: Seq<MeasuredLayer>, axis: Axis) -> int {
        match self.bounds() {
            Some(bounds) => bounds.along(axis),
            None => self.content_extent(items, axis),
        }
    }

    /// Where the group starts along `axis`: its declared position, moved by
    /// the alignment's share of what the container has beyond the content.
    pub open spec fn base(self, items: Seq<MeasuredLayer>, axis: Axis) -> int {
        self.origin(axis) + aligned_shift(
            self.alignment,
            axis,
            slack(self.container_extent(items, axis), self.content_extent(items, axis)),
        )
    }

    /// The mode in force along `axis`.
    pub open spec fn mode_along(self, axis: Axis) -> GroupJustification {
        mode_in_force(
            self.justification,
            match self.distribution {
                Some(config) => match axis {
                    Axis::Horizontal => config.horizontal,
                    Axis::Vertical => config.vertical,
                },
                None => None,
            },
        )
    }

    /// Coordinate of item `i` along the axis of a line.
    ///
    /// The base, the space in front of the first item, the items before `i`,
    /// and `i` times the space between neighbours.
    pub open spec fn line_main(self, items: Seq<MeasuredLayer>, axis: Axis, i: int) -> int {
        let free = slack(self.container_extent(items, axis), self.content_extent(items, axis));
        let mode = self.mode_along(axis);
        let n = items.len() as int;
        self.base(items, axis) + leading_space(mode, free, n) + seq_sum(
            lengths(items, axis).take(i),
        ) + i * between_space(mode, self.spacing as int, free, n)
    }

    /// Coordinate of item `i` across a line, where `axis` is the direction
    /// across it: the base, moved by the alignment's share of what the
    /// container has beyond the item.
    pub open spec fn line_cross(self, items: Seq<MeasuredLayer>, axis: Axis, i: int) -> int {
        self.base(items, axis) + aligned_shift(
            self.alignment,
            axis,
            slack(self.container_extent(items, axis), lengths(items, axis)[i]),
        )
    }

    /// What a grid takes for its content along `axis` when it shares out
    /// space: horizontally the widths of the first row, vertically the
    /// heights of the first column.
    pub open spec fn grid_content(self, items: Seq<MeasuredLayer>, axis: Axis) -> int {
        let cols = self.column_count();
        let s = lengths(items, axis);
        match axis {
            Axis::Horizontal => seq_sum(s.take(self.grid_count(items, axis))),
            Axis::Vertical => lane_sum(s, cols, 0, items.len() as int),
        }
    }

    /// How many items a grid shares space among along `axis`: horizontally
    /// the items of the first row, vertically the rows.
    pub open spec fn grid_count(self, items: Seq<MeasuredLayer>, axis: Axis) -> int {
        let cols = self.column_count();
        let n = items.len() as int;
        match axis {
            Axis::Horizontal => if cols < n {
                cols
            } else {
                n
            },
            Axis::Vertical => row_count(n, cols),
        }
    }

    /// Space in front of the first column or row of a grid. Without a
    /// distribution there is none.
    pub open spec fn grid_leading(self, items: Seq<MeasuredLayer>, axis: Axis) -> int {
        match self.distribution {
            Some(_) => leading_space(
                self.mode_along(axis),
                slack(self.container_extent(items, axis), self.grid_content(items, axis)),
                self.grid_count(items, axis),
            ),
            None => 0,
        }
    }

    /// Space between neighbouring columns or rows of a grid. Without a
    /// distribution it is the plain spacing, whatever the justification.
    pub open spec fn grid_between(self, items: Seq<MeasuredLayer>, axis: Axis) -> int {
        match self.distribution {
            Some(_) => between_space(
                self.mode_along(axis),
                self.spacing as int,
                slack(self.container_extent(items, axis), self.grid_content(items, axis)),
                self.grid_count(items, axis),
            ),
            None => self.spacing as int,
        }
    }

    /// Coordinate of item `i` of a grid along `axis`.
    ///
    /// Item `i` stands in row `i / cols` and column `i % cols`.
    /// Horizontally it follows the items before it in its row, each with the
    /// space between columns behind it. Vertically it follows the rows above
    /// it, each as tall as its last item and with the space between rows
    /// behind it.
    pub open spec fn grid_coordinate(self, items: Seq<MeasuredLayer>, axis: Axis, i: int) -> int {
        let cols = self.column_count();
        let s = lengths(items, axis);
        let start = self.base(items, axis) + self.grid_leading(items, axis);
        match axis {
            Axis::Horizontal => start + seq_sum(s.subrange(i - i % cols, i)) + (i % cols)
                * self.grid_between(items, axis),
            Axis::Vertical => start + lane_sum(s, cols, cols - 1, i) + (i / cols)
                * self.grid_between(items, axis),
        }
    }

    /// Coordinate of item `i` along `axis`.
    pub open spec fn coordinate(self, items: Seq<MeasuredLayer>, axis: Axis, i: int) -> int {
        match self.main_axis() {
            Some(main) => if main == axis {
                self.line_main(items, axis, i)
            } else {
                self.line_cross(items, axis, i)
            },
            None => self.grid_coordinate(items, axis, i),
        }
    }

    /// Where item `i` is placed. Every placement is relative to the canvas.
    pub open spec fn placement(self, items: Seq<MeasuredLayer>, i: int) -> Placement {
        Placement {
            x: self.coordinate(items, Axis::Horizontal, i),
            y: self.coordinate(items, Axis::Vertical, i),
            anchor: Anchor::Canvas,
        }
    }

    /// The placements of all items, in the order of the items.
    pub open spec fn layout(self, items: Seq<MeasuredLayer>) -> Seq<Placement> {
        Seq::new(items.len(), |i: int| self.placement(items, i))
    }

    /// Whether item `i` lands on coordinates that a position can hold.
    pub open spec fn fits_at(self, items: Seq<MeasuredLayer>, i: int) -> bool {
        &&& self.coordinate(items, Axis::Horizontal, i) <= u32::MAX
        &&& self.coordinate(items, Axis::Vertical, i) <= u32::MAX
    }

    /// Whether every item lands on coordinates that a position can hold.
    pub open spec fn fits(self, items: Seq<MeasuredLayer>) -> bool {
        forall|i: int| 0 <= i < items.len() ==> #[trigger] self.fits_at(items, i)
    }
}

/// The frame of a group along one axis.
#[derive(Clone, Copy, Debug, PartialEq, Eq)]
pub struct AxisFrame {
    /// Extent of the content.
    pub content: u128,
    /// Extent of the container.
    pub container: u128,
    /// Where the group starts.
    pub base: u128,
}

/// No running coordinate passes this bound before it is looked at.
pub const COORDINATE_LIMIT: u128 = 0x8_0000_0000_0000_0000_0000_0000;

impl GroupLayout {
    /// The content, the container and the base of the group along `axis`.
    pub fn frame(&self, items: &Vec<MeasuredLayer>, axis: Axis) -> (frame: AxisFrame)
        ensures
            frame.content == self.content_extent(items@, axis),
            frame.container == self.container_extent(items@, axis),
            frame.base == self.base(items@, axis),
            frame.container < CONTENT_LIMIT,
            frame.base <= 2 * 0xFFFF_FFFF,
    {
        let content = self.measure_content(items, axis);
        let bounds: Option<DistributionBounds> = match self.distribution {
            Some(config) => config.bounds,
            None => None,
        };
        let container: u128 = match bounds {
            Some(b) => match axis {
                Axis::Horizontal => b.width as u128,
                Axis::Vertical => b.height as u128,
            },
            None => content,
        };
        let origin: u32 = match axis {
            Axis::Horizontal => self.position.x,
            Axis::Vertical => self.position.y,
        };
        let shift = shift_of(self.alignment, axis, slack_of(container, content));
        AxisFrame { content, container, base: origin as u128 + shift }
    }

    /// The mode in force along `axis`.
    pub fn mode_for(&self, axis: Axis) -> (mode: GroupJustification)
        ensures
            mode == self.mode_along(axis),
    {
        let chosen = match self.distribution {
            Some(config) => match axis {
                Axis::Horizontal => config.horizontal,
                Axis::Vertical => config.vertical,
            },
            None => None,
        };
        pick_mode(self.justification, chosen)
    }

    /// The positions of the items of a line that runs along `main`.
    fn place_line(&self, items: &Vec<MeasuredLayer>, main: Axis) -> (positions: Option<
        Vec<Position>,
    >)
        requires
            self.main_axis() == Some(main),
        ensures
            positions is Some <==> self.fits(items@),
            positions matches Some(p) ==> placements(p@) == self.layout(items@),
    {
        let n = items.len();
        let cross = main.other();
        let along = self.frame(items, main);
        let across = self.frame(items, cross);
        let free = slack_of(along.container, along.content);
        let (lead, gap) = axis_spacing(self.mode_for(main), self.spacing, free, n);
        let mut running: u128 = along.base + lead;
        let mut out: Vec<Position> = Vec::new();
        let mut i: usize = 0;
        while i < n
            invariant
                i <= n,
                n == items.len(),
                self.main_axis() == Some(main),
                cross == main.cross(),
                across.container == self.container_extent(items@, cross),
                across.base == self.base(items@, cross),
                across.container < CONTENT_LIMIT,
                across.base <= 2 * 0xFFFF_FFFF,
                gap < CONTENT_LIMIT,
                gap == between_space(
                    self.mode_along(main),
                    self.spacing as int,
                    slack(
                        self.container_extent(items@, main),
                        self.content_extent(items@, main),
                    ),
                    n as int,
                ),
                running == self.line_main(items@, main, i as int),
                running < COORDINATE_LIMIT,
                out.len() == i,
                forall|j: int| 0 <= j < i ==> (#[trigger] out[j])@ == self.placement(items@, j),
                forall|j: int| 0 <= j < i ==> #[trigger] self.fits_at(items@, j),
            decreases n - i,
        {
            let size = items[i].dimensions;
            let side = across.base + shift_of(
                self.alignment,
                cross,
                slack_of(across.container, size.length(cross) as u128),
            );
            proof {
                assert(self.coordinate(items@, main, i as int) == running);
                assert(self.coordinate(items@, cross, i as int) == side);
            }
            if running > u32::MAX as u128 || side > u32::MAX as u128 {
                proof {
                    assert(!self.fits_at(items@, i as int));
                }
                return None;
            }
            let position = match main {
                Axis::Horizontal => Position {
                    x: running as u32,
                    y: side as u32,
                    relative_to: RelativeTo::Canvas,
                },
                Axis::Vertical => Position {
                    x: side as u32,
                    y: running as u32,
                    relative_to: RelativeTo::Canvas,
                },
            };
            proof {
                assert(position@ == self.placement(items@, i as int));
                assert(self.fits_at(items@, i as int));
                let s = lengths(items@, main);
                assert(s.take(i + 1).drop_last() =~= s.take(i as int));
                assert(s.take(i + 1).last() == size.along(main));
                assert((i + 1) * gap == i * gap + gap) by (nonlinear_arith);
            }
            out.push(position);
            running = running + size.length(main) as u128 + gap;
            i = i + 1;
        }
        proof {
            assert(placements(out@) =~= self.layout(items@));
        }
        Some(out)
    }

    /// The space in front of the first column or row of a grid and the space
    /// between neighbours, in this order.
    fn grid_spacing(&self, items: &Vec<MeasuredLayer>, axis: Axis, container: u128) -> (spaces: (
        u128,
        u128,
    ))
        requires
            container == self.container_extent(items@, axis),
            container < CONTENT_LIMIT,
        ensures
            spaces.0 == self.grid_leading(items@, axis),
            spaces.1 == self.grid_between(items@, axis),
            spaces.0 < CONTENT_LIMIT,
            spaces.1 < CONTENT_LIMIT,
    {
        match self.distribution {
            None => (0, self.spacing as u128),
            Some(_) => {
                let n = items.len();
                let cols = self.effective_columns();
                let (content, count) = match axis {
                    Axis::Horizontal => {
                        let count: usize = if (cols as usize) < n { cols as usize } else { n };
                        (sum_prefix(items, axis, count), count)
                    },
                    Axis::Vertical => (lane_sum_of(items, axis, cols, 0), count_rows(n, cols)),
                };
                axis_spacing(self.mode_for(axis), self.spacing, slack_of(container, content), count)
            },
        }
    }

    /// The positions of the items of a grid.
    fn place_grid(&self, items: &Vec<MeasuredLayer>) -> (positions: Option<Vec<Position>>)
        requires
            self.main_axis() is None,
        ensures
            positions is Some <==> self.fits(items@),
            positions matches Some(p) ==> placements(p@) == self.layout(items@),
    {
        let n = items.len();
        let cols = self.effective_columns() as usize;
        let across = self.frame(items, Axis::Horizontal);
        let down = self.frame(items, Axis::Vertical);
        let (lead_x, gap_x) = self.grid_spacing(items, Axis::Horizontal, across.container);
        let (lead_y, gap_y) = self.grid_spacing(items, Axis::Vertical, down.container);
        let left: u128 = across.base + lead_x;
        let ghost top: int = down.base + lead_y;
        let ghost w = lengths(items@, Axis::Horizontal);
        let ghost h = lengths(items@, Axis::Vertical);
        let mut x: u128 = left;
        let mut y: u128 = down.base + lead_y;
        let mut col: usize = 0;
        let ghost mut row: int = 0;
        let mut out: Vec<Position> = Vec::new();
        let mut i: usize = 0;
        while i < n
            invariant
                i <= n,
                n == items.len(),
                self.main_axis() is None,
                cols == self.column_count(),
                w == lengths(items@, Axis::Horizontal),
                h == lengths(items@, Axis::Vertical),
                left == self.base(items@, Axis::Horizontal) + self.grid_leading(
                    items@,
                    Axis::Horizontal,
                ),
                top == self.base(items@, Axis::Vertical) + self.grid_leading(items@, Axis::Vertical),
                gap_x == self.grid_between(items@, Axis::Horizontal),
                gap_y == self.grid_between(items@, Axis::Vertical),
                left < COORDINATE_LIMIT,
                gap_x < CONTENT_LIMIT,
                gap_y < CONTENT_LIMIT,
                0 <= row,
                col < cols,
                i == row * cols + col,
                x == left + seq_sum(w.subrange(i - col, i as int)) + col * gap_x,
                y == top + lane_sum(h, cols as int, cols - 1, i as int) + row * gap_y,
                x < COORDINATE_LIMIT,
                y < COORDINATE_LIMIT,
                out.len() == i,
                forall|j: int| 0 <= j < i ==> (#[trigger] out[j])@ == self.placement(items@, j),
                forall|j: int| 0 <= j < i ==> #[trigger] self.fits_at(items@, j),
            decreases n - i,
        {
            proof {
                lemma_fundamental_div_mod_converse(i as int, cols as int, row, col as int);
                assert(self.coordinate(items@, Axis::Horizontal, i as int) == x);
                assert(self.coordinate(items@, Axis::Vertical, i as int) == y);
            }
            if x > u32::MAX as u128 || y > u32::MAX as u128 {
                proof {
                    assert(!self.fits_at(items@, i as int));
                }
                return None;
            }
            let position = Position { x: x as u32, y: y as u32, relative_to: RelativeTo::Canvas };
            proof {
                assert(position@ == self.placement(items@, i as int));
                assert(self.fits_at(items@, i as int));
            }
            out.push(position);
            let size = items[i].dimensions;
            if col + 1 >= cols {
                proof {
                    assert((row + 1) * cols == row * cols + cols) by (nonlinear_arith);
                    assert((row + 1) * gap_y == row * gap_y + gap_y) by (nonlinear_arith);
                    assert(w.subrange(i + 1, i + 1) =~= Seq::<int>::empty());
                    assert(h[i as int] == size.height);
                    row = row + 1;
                }
                x = left;
                y = y + size.height as u128 + gap_y;
                col = 0;
            } else {
                proof {
                    assert(w.subrange(i - col, i + 1).drop_last() =~= w.subrange(
                        i - col,
                        i as int,
                    ));
                    assert(w.subrange(i - col, i + 1).last() == size.width);
                    assert((col + 1) * gap_x == col * gap_x + gap_x) by (nonlinear_arith);
                }
                x = x + size.width as u128 + gap_x;
                col = col + 1;
            }
            i = i + 1;
        }
        proof {
            assert(placements(out@) =~= self.layout(items@));
        }
        Some(out)
    }

    /// The position of every item, in the order of the items, or `None`
    /// where some coordinate is too large for a position to hold.
    ///
    /// Every position is relative to the canvas.
    pub fn try_compute_positions(&self, items: &Vec<MeasuredLayer>) -> (positions: Option<
        Vec<Position>,
    >)
        ensures
            positions is Some <==> self.fits(items@),
            positions matches Some(p) ==> placements(p@) == self.layout(items@),
            positions matches Some(p) ==> p@.len() == items@.len(),
    {
        let positions = match self.layout_type {
            LayoutType::Vertical => self.place_line(items, Axis::Vertical),
            LayoutType::Horizontal => self.place_line(items, Axis::Horizontal),
            LayoutType::Grid => self.place_grid(items),
        };
        proof {
            if positions is Some {
                assert(placements(positions->0@).len() == positions->0@.len());
                assert(self.layout(items@).len() == items@.len());
            }
        }
        positions
    }

    /// The position of every item, in the order of the items.
    ///
    /// Every position is relative to the canvas.
    pub fn compute_positions(&self, items: &Vec<MeasuredLayer>) -> (positions: Vec<Position>)
        requires
            self.fits(items@),
        ensures
            placements(positions@) == self.layout(items@),
            positions@.len() == items@.len(),
    {
        self.try_compute_positions(items).unwrap()
    }
}

/// Number of rows that `n` items fill when each row holds `cols` of them.
pub fn count_rows(n: usize, cols: u32) -> (rows: usize)
    requires
        cols >= 1,
    ensures
        rows == row_count(n as int, cols as int),
        rows <= n,
{
    if n == 0 {
        proof {
            lemma_fundamental_div_mod_converse(cols - 1, cols as int, 0, cols - 1);
        }
        0
    } else {
        let full = (n - 1) / (cols as usize);
        proof {
            let rest = (n - 1) % (cols as int);
            lemma_fundamental_div_mod(n - 1, cols as int);
            vstd::arithmetic::div_mod::lemma_mod_bound(n - 1, cols as int);
            assert((full + 1) * cols == cols * full + cols) by (nonlinear_arith);
            lemma_fundamental_div_mod_converse(n + cols - 1, cols as int, full + 1, rest);
            assert(full <= cols * full) by (nonlinear_arith)
                requires
                    cols >= 1,
                    full >= 0,
            ;
        }
        full + 1
    }
}

} // verus!
