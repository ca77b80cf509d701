//! How much room the content of a group takes, before anything is placed.
//!
//! A line of items (vertical or horizontal) is as long as its items and the
//! spacing between them, and as thick as its thickest item. A grid is as wide
//! as its columns and as tall as its rows, each column as wide as its widest
//! item and each row as tall as its tallest.

use vstd::prelude::*;
use vstd::arithmetic::div_mod::{lemma_fundamental_div_mod_converse, lemma_small_mod};
use crate::model::{lengths, Axis, GroupLayout, LayoutType, MeasuredLayer};

verus! {

/// Sum of the elements; 0 for the empty sequence.
pub open spec fn seq_sum(s: Seq<int>) -> int
    decreases s.len(),
{
    if s.len() == 0 {
        0
    } else {
        seq_sum(s.drop_last()) + s.last()
    }
}

/// Largest element, and 0 for the empty sequence or if all are negative.
pub open spec fn seq_max(s: Seq<int>) -> int
    decreases s.len(),
{
    if s.len() == 0 {
        0
    } else if s.last() > seq_max(s.drop_last()) {
        s.last()
    } else {
        seq_max(s.drop_last())
    }
}

/// Largest of the elements before index `upto` whose index is `lane` modulo
/// `cols`; 0 if there is none.
pub open spec fn lane_max(s: Seq<int>, cols: int, lane: int, upto: int) -> int
    decreases upto,
{
    if upto <= 0 {
        0
    } else if (upto - 1) % cols == lane && s[upto - 1] > lane_max(s, cols, lane, upto - 1) {
        s[upto - 1]
    } else {
        lane_max(s, cols, lane, upto - 1)
    }
}

/// Sum of the elements before index `upto` whose index is `lane` modulo `cols`.
pub open spec fn lane_sum(s: Seq<int>, cols: int, lane: int, upto: int) -> int
    decreases upto,
{
    if upto <= 0 {
        0
    } else if (upto - 1) % cols == lane {
        lane_sum(s, cols, lane, upto - 1) + s[upto - 1]
    } else {
        lane_sum(s, cols, lane, upto - 1)
    }
}

/// Sum over the first `count` lanes of each lane's largest element.
pub open spec fn lanes_total(s: Seq<int>, cols: int, count: int) -> int
    decreases count,
{
    if count <= 0 {
        0
    } else {
        lanes_total(s, cols, count - 1) + lane_max(s, cols, count - 1, s.len() as int)
    }
}

/// Number of rows that `n` items fill when each row holds `cols` of them.
pub open spec fn row_count(n: int, cols: int) -> int {
    (n + cols - 1) / cols
}

/// Largest element of row `row`: of the run of up to `cols` elements that
/// starts at index `row * cols`.
pub open spec fn row_max(s: Seq<int>, cols: int, row: int) -> int {
    let start = row * cols;
    let end = if start + cols < s.len() { start + cols } else { s.len() as int };
    seq_max(s.subrange(start, end))
}

/// Sum over the first `count` rows of each row's largest element.
pub open spec fn rows_total(s: Seq<int>, cols: int, count: int) -> int
    decreases count,
{
    if count <= 0 {
        0
    } else {
        rows_total(s, cols, count - 1) + row_max(s, cols, count - 1)
    }
}

/// `n - 1`, but 0 for `n == 0`.
pub open spec fn gaps(n: int) -> int {
    if n > 0 {
        n - 1
    } else {
        0
    }
}

impl GroupLayout {
    /// The number of columns a grid is laid out in: `columns`, and 1 where
    /// that is 0.
    pub open spec fn column_count(self) -> int {
        if self.columns == 0 {
            1
        } else {
            self.columns as int
        }
    }

    /// The direction in which a line of items runs; a grid has none.
    pub open spec fn main_axis(self) -> Option<Axis> {
        match self.layout_type {
            LayoutType::Vertical => Some(Axis::Vertical),
            LayoutType::Horizontal => Some(Axis::Horizontal),
            LayoutType::Grid => None,
        }
    }

    /// Extent of the content of the group along `axis`.
    ///
    /// Along the axis of a line: the items and `spacing` between neighbours.
    /// Across it: the largest item. For a grid, horizontally: the columns and
    /// `spacing` between neighbouring columns, empty columns counted;
    /// vertically: the rows and `spacing` between neighbouring rows.
    pub open spec fn content_extent(self, items: Seq<MeasuredLayer>, axis: Axis) -> int {
        let s = lengths(items, axis);
        let n = items.len() as int;
        match self.main_axis() {
            Some(main) => if main == axis {
                seq_sum(s) + self.spacing * gaps(n)
            } else {
                seq_max(s)
            },
            None => {
                let cols = self.column_count();
                match axis {
                    Axis::Horizontal => lanes_total(s, cols, cols) + self.spacing * gaps(cols),
                    Axis::Vertical => {
                        let rows = row_count(n, cols);
                        rows_total(s, cols, rows) + self.spacing * gaps(rows)
                    },
                }
            },
        }
    }
}

/// A sum of values that are not negative is not negative.
pub proof fn lemma_seq_sum_nonnegative(s: Seq<int>)
    requires
        forall|i: int| 0 <= i < s.len() ==> 0 <= s[i],
    ensures
        0 <= seq_sum(s),
    decreases s.len(),
{
    if s.len() > 0 {
        lemma_seq_sum_nonnegative(s.drop_last());
    }
}

/// A lane that starts at or after `upto` has no element before `upto`.
pub proof fn lemma_lane_max_of_empty_lane(s: Seq<int>, cols: int, lane: int, upto: int)
    requires
        0 < cols,
        upto <= lane < cols,
    ensures
        lane_max(s, cols, lane, upto) == 0,
    decreases upto,
{
    if upto > 0 {
        lemma_lane_max_of_empty_lane(s, cols, lane, upto - 1);
        lemma_small_mod((upto - 1) as nat, cols as nat);
    }
}

/// Lanes that no element falls in add nothing to the total.
pub proof fn lemma_lanes_total_stops_at_len(s: Seq<int>, cols: int, count: int)
    requires
        0 < cols,
        s.len() <= count <= cols,
    ensures
        lanes_total(s, cols, count) == lanes_total(s, cols, s.len() as int),
    decreases count,
{
    if count > s.len() {
        lemma_lanes_total_stops_at_len(s, cols, count - 1);
        lemma_lane_max_of_empty_lane(s, cols, count - 1, s.len() as int);
    }
}

impl GroupLayout {
    /// See [`GroupLayout::column_count`].
    pub fn effective_columns(&self) -> (cols: u32)
        ensures
            cols == self.column_count(),
            cols >= 1,
    {
        if self.columns == 0 {
            1
        } else {
            self.columns
        }
    }
}

/// Sum of the sizes along `axis` of the first `count` items.
pub fn sum_prefix(items: &Vec<MeasuredLayer>, axis: Axis, count: usize) -> (total: u128)
    requires
        count <= items.len(),
    ensures
        total == seq_sum(lengths(items@, axis).take(count as int)),
        total <= count * 0xFFFF_FFFF,
{
    let ghost s = lengths(items@, axis);
    let mut total: u128 = 0;
    let mut i: usize = 0;
    while i < count
        invariant
            i <= count <= items.len(),
            s == lengths(items@, axis),
            total == seq_sum(s.take(i as int)),
            total <= i * 0xFFFF_FFFF,
        decreases count - i,
    {
        let length = items[i].dimensions.length(axis);
        proof {
            assert(s.take(i + 1).drop_last() =~= s.take(i as int));
            assert(s.take(i + 1).last() == length);
        }
        total = total + length as u128;
        i = i + 1;
    }
    total
}

/// Largest size along `axis` among the items.
pub fn max_along(items: &Vec<MeasuredLayer>, axis: Axis) -> (largest: u32)
    ensures
        largest == seq_max(lengths(items@, axis)),
{
    let ghost s = lengths(items@, axis);
    let mut largest: u32 = 0;
    let mut i: usize = 0;
    while i < items.len()
        invariant
            i <= items.len(),
            s == lengths(items@, axis),
            largest == seq_max(s.take(i as int)),
        decreases items.len() - i,
    {
        let length = items[i].dimensions.length(axis);
        proof {
            assert(s.take(i + 1).drop_last() =~= s.take(i as int));
            assert(s.take(i + 1).last() == length);
        }
        if length > largest {
            largest = length;
        }
        i = i + 1;
    }
    proof {
        assert(s.take(items.len() as int) =~= s);
    }
    largest
}

/// Sum over the `cols` columns of each column's largest size along `axis`.
///
/// Item `i` stands in column `i % cols`.
pub fn columns_total(items: &Vec<MeasuredLayer>, axis: Axis, cols: u32) -> (total: u128)
    requires
        cols >= 1,
    ensures
        total == lanes_total(lengths(items@, axis), cols as int, cols as int),
        total <= items.len() * 0xFFFF_FFFF,
{
    let ghost s = lengths(items@, axis);
    let n = items.len();
    let used: usize = if (cols as usize) < n { cols as usize } else { n };
    let mut lane: Vec<u32> = Vec::new();
    while lane.len() < used
        invariant
            lane.len() <= used,
            forall|k: int| 0 <= k < lane.len() ==> lane[k] == 0,
        decreases used - lane.len(),
    {
        lane.push(0);
    }
    let mut i: usize = 0;
    while i < n
        invariant
            i <= n,
            n == items.len(),
            cols >= 1,
            used == (if (cols as usize) < n { cols as usize } else { n }),
            lane.len() == used,
            s == lengths(items@, axis),
            forall|k: int| 0 <= k < used ==> lane[k] == #[trigger] lane_max(s, cols as int, k, i as int),
        decreases n - i,
    {
        let column = i % (cols as usize);
        proof {
            vstd::arithmetic::div_mod::lemma_mod_bound(i as int, cols as int);
            vstd::arithmetic::div_mod::lemma_mod_decreases(i as nat, cols as nat);
        }
        let length = items[i].dimensions.length(axis);
        let ghost before = lane@;
        if length > lane[column] {
            lane.set(column, length);
        }
        proof {
            assert(s[i as int] == length);
            assert forall|k: int| 0 <= k < used implies lane[k] == #[trigger] lane_max(
                s,
                cols as int,
                k,
                i + 1,
            ) by {
                assert(before[k] == lane_max(s, cols as int, k, i as int));
            }
        }
        i = i + 1;
    }
    let mut total: u128 = 0;
    let mut c: usize = 0;
    while c < used
        invariant
            c <= used <= n,
            n == items.len(),
            n == s.len(),
            lane.len() == used,
            forall|k: int| 0 <= k < used ==> lane[k] == #[trigger] lane_max(s, cols as int, k, n as int),
            total == lanes_total(s, cols as int, c as int),
            total <= c * 0xFFFF_FFFF,
        decreases used - c,
    {
        total = total + lane[c] as u128;
        c = c + 1;
    }
    proof {
        if used < cols {
            lemma_lanes_total_stops_at_len(s, cols as int, cols as int);
        }
    }
    total
}

/// Sum over the rows of each row's largest size along `axis`, and the number
/// of rows.
///
/// Row `r` holds the items from index `r * cols` up to, but not including,
/// index `(r + 1) * cols`, as far as there are any.
pub fn rows_total_of(items: &Vec<MeasuredLayer>, axis: Axis, cols: u32) -> (result: (u128, usize))
    requires
        cols >= 1,
    ensures
        result.1 == row_count(items.len() as int, cols as int),
        result.0 == rows_total(lengths(items@, axis), cols as int, result.1 as int),
        result.0 <= items.len() * 0xFFFF_FFFF,
        result.1 <= items.len(),
{
    let ghost s = lengths(items@, axis);
    let n = items.len();
    let mut total: u128 = 0;
    let mut rows: usize = 0;
    let mut start: usize = 0;
    while start < n
        invariant
            n == items.len(),
            cols >= 1,
            s == lengths(items@, axis),
            start <= n,
            rows <= start,
            start == (if rows * cols < n { rows * cols } else { n as int }),
            rows * cols < n + cols,
            total == rows_total(s, cols as int, rows as int),
            total <= rows * 0xFFFF_FFFF,
        decreases n - start,
    {
        let end: usize = if n - start > cols as usize { start + cols as usize } else { n };
        let mut largest: u32 = 0;
        let mut j: usize = start;
        while j < end
            invariant
                start <= j <= end <= n,
                n == items.len(),
                s == lengths(items@, axis),
                largest == seq_max(s.subrange(start as int, j as int)),
            decreases end - j,
        {
            let length = items[j].dimensions.length(axis);
            proof {
                assert(s.subrange(start as int, j + 1).drop_last() =~= s.subrange(
                    start as int,
                    j as int,
                ));
                assert(s.subrange(start as int, j + 1).last() == length);
            }
            if length > largest {
                largest = length;
            }
            j = j + 1;
        }
        proof {
            assert(start == rows * cols);
            assert((rows + 1) * cols == rows * cols + cols) by (nonlinear_arith);
            assert(row_max(s, cols as int, rows as int) == largest);
        }
        total = total + largest as u128;
        rows = rows + 1;
        start = end;
    }
    proof {
        let r = n + cols - 1 - rows * cols;
        lemma_fundamental_div_mod_converse(n + cols - 1, cols as int, rows as int, r);
    }
    (total, rows)
}

/// Sum of the sizes along `axis` of the items in column `lane`.
pub fn lane_sum_of(items: &Vec<MeasuredLayer>, axis: Axis, cols: u32, lane: u32) -> (total: u128)
    requires
        cols >= 1,
    ensures
        total == lane_sum(lengths(items@, axis), cols as int, lane as int, items.len() as int),
        total <= items.len() * 0xFFFF_FFFF,
{
    let ghost s = lengths(items@, axis);
    let n = items.len();
    let mut total: u128 = 0;
    let mut i: usize = 0;
    while i < n
        invariant
            i <= n,
            n == items.len(),
            cols >= 1,
            s == lengths(items@, axis),
            total == lane_sum(s, cols as int, lane as int, i as int),
            total <= i * 0xFFFF_FFFF,
        decreases n - i,
    {
        if i % (cols as usize) == lane as usize {
            total = total + items[i].dimensions.length(axis) as u128;
        }
        i = i + 1;
    }
    total
}

/// No content extent reaches this bound.
pub const CONTENT_LIMIT: u128 = 0x2_0000_0000_0000_0000_0000_0000;

impl GroupLayout {
    /// Extent of the content of the group along `axis`.
    pub fn measure_content(&self, items: &Vec<MeasuredLayer>, axis: Axis) -> (extent: u128)
        ensures
            extent == self.content_extent(items@, axis),
            extent < CONTENT_LIMIT,
    {
        let n = items.len();
        let spacing = self.spacing as u128;
        match self.layout_type {
            LayoutType::Grid => {
                let cols = self.effective_columns();
                match axis {
                    Axis::Horizontal => {
                        let columns = columns_total(items, axis, cols);
                        let between = (cols - 1) as u128;
                        assert(spacing * between <= 0xFFFF_FFFF * 0xFFFF_FFFF) by (nonlinear_arith)
                            requires
                                spacing <= 0xFFFF_FFFF,
                                between <= 0xFFFF_FFFF,
                        ;
                        columns + spacing * between
                    },
                    Axis::Vertical => {
                        let (tall, rows) = rows_total_of(items, axis, cols);
                        let between: u128 = if rows > 0 { (rows - 1) as u128 } else { 0 };
                        assert(spacing * between <= 0xFFFF_FFFF * 0xFFFF_FFFF_FFFF_FFFF)
                            by (nonlinear_arith)
                            requires
                                spacing <= 0xFFFF_FFFF,
                                between <= 0xFFFF_FFFF_FFFF_FFFF,
                        ;
                        tall + spacing * between
                    },
                }
            },
            _ => {
                let main = match self.layout_type {
                    LayoutType::Vertical => Axis::Vertical,
                    _ => Axis::Horizontal,
                };
                if main == axis {
                    let sum = sum_prefix(items, axis, n);
                    let between: u128 = if n > 0 { (n - 1) as u128 } else { 0 };
                    proof {
                        let s = lengths(items@, axis);
                        assert(s.take(n as int) =~= s);
                    }
                    assert(spacing * between <= 0xFFFF_FFFF * 0xFFFF_FFFF_FFFF_FFFF)
                        by (nonlinear_arith)
                        requires
                            spacing <= 0xFFFF_FFFF,
                            between <= 0xFFFF_FFFF_FFFF_FFFF,
                    ;
                    sum + spacing * between
                } else {
                    max_along(items, axis) as u128
                }
            },
        }
    }
}

} // verus!
