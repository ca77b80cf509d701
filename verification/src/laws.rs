//! What holds of every layout and of every resolution.

use vstd::prelude::*;
use vstd::arithmetic::div_mod::{lemma_div_pos_is_pos, lemma_mod_bound};
use vstd::arithmetic::mul::lemma_mul_nonnegative;
use crate::extent::{lane_sum, lemma_seq_sum_nonnegative, row_count, seq_max, seq_sum};
use crate::model::{lengths, Anchor, Axis, GroupJustification, GroupLayout, MeasuredLayer, Placement};
use crate::resolver::{dangling, first_named, lemma_first_named_before, resolution, resolved_at};
use crate::spacing::{aligned_shift, between_space, leading_space, slack};

verus! {

/// Free space is never negative, and there is none where the container is
/// not larger than the content.
pub proof fn lemma_slack_floors_at_zero(container: int, content: int)
    ensures
        0 <= slack(container, content),
        container <= content ==> slack(container, content) == 0,
        container >= content ==> slack(container, content) == container - content,
{
}

/// The alignment never takes more than the free space, and nothing where
/// there is none.
pub proof fn lemma_aligned_shift_within_free(
    alignment: crate::model::GroupAlignment,
    axis: Axis,
    free: int,
)
    requires
        0 <= free,
    ensures
        0 <= aligned_shift(alignment, axis, free) <= free,
{
}

/// The spaces that a mode gives are never negative. With one item or none,
/// `SpaceBetween` puts no space between neighbours.
pub proof fn lemma_spaces_not_negative(
    mode: GroupJustification,
    spacing: int,
    free: int,
    count: int,
)
    requires
        0 <= spacing,
        0 <= free,
        0 <= count,
    ensures
        0 <= leading_space(mode, free, count) <= free,
        0 <= between_space(mode, spacing, free, count),
        mode == GroupJustification::SpaceBetween && count <= 1 ==> between_space(
            mode,
            spacing,
            free,
            count,
        ) == 0,
{
    lemma_div_pos_is_pos(free, count + 1);
    lemma_div_pos_is_pos(free, count + 2);
    vstd::arithmetic::div_mod::lemma_div_is_ordered_by_denominator(free, 1, count + 1);
    vstd::arithmetic::div_mod::lemma_div_is_ordered_by_denominator(free, 1, count + 2);
    if count > 1 {
        lemma_div_pos_is_pos(free, count - 1);
    }
}

/// A sum over a lane of values that are not negative is not negative.
pub proof fn lemma_lane_sum_nonnegative(s: Seq<int>, cols: int, lane: int, upto: int)
    requires
        upto <= s.len(),
        forall|i: int| 0 <= i < s.len() ==> 0 <= s[i],
    ensures
        0 <= lane_sum(s, cols, lane, upto),
    decreases upto,
{
    if upto > 0 {
        lemma_lane_sum_nonnegative(s, cols, lane, upto - 1);
    }
}

/// The group never starts before its declared position, and starts exactly
/// there where the container is not larger than the content.
pub proof fn lemma_base_not_before_origin(layout: GroupLayout, items: Seq<MeasuredLayer>, axis: Axis)
    ensures
        0 <= layout.origin(axis) <= layout.base(items, axis),
        layout.container_extent(items, axis) <= layout.content_extent(items, axis)
            ==> layout.base(items, axis) == layout.origin(axis),
{
}

/// No item is placed before the declared position of its group, on either
/// axis, and so none has a negative coordinate: where the container is
/// smaller than what goes into it, the shortfall counts as no free space.
pub proof fn lemma_coordinates_not_before_origin(
    layout: GroupLayout,
    items: Seq<MeasuredLayer>,
    axis: Axis,
    i: int,
)
    requires
        0 <= i < items.len(),
    ensures
        0 <= layout.origin(axis) <= layout.coordinate(items, axis, i),
{
    let s = lengths(items, axis);
    let n = items.len() as int;
    let cols = layout.column_count();
    lemma_base_not_before_origin(layout, items, axis);
    match layout.main_axis() {
        Some(main) => {
            if main == axis {
                let free = slack(
                    layout.container_extent(items, axis),
                    layout.content_extent(items, axis),
                );
                let mode = layout.mode_along(axis);
                lemma_spaces_not_negative(mode, layout.spacing as int, free, n);
                lemma_seq_sum_nonnegative(s.take(i));
                lemma_mul_nonnegative(i, between_space(mode, layout.spacing as int, free, n));
            }
        },
        None => {
            let free = slack(layout.container_extent(items, axis), layout.grid_content(items, axis));
            let mode = layout.mode_along(axis);
            let count = layout.grid_count(items, axis);
            lemma_div_pos_is_pos(n + cols - 1, cols);
            assert(0 <= row_count(n, cols));
            lemma_spaces_not_negative(mode, layout.spacing as int, free, count);
            assert(0 <= layout.grid_leading(items, axis));
            assert(0 <= layout.grid_between(items, axis));
            lemma_mod_bound(i, cols);
            lemma_div_pos_is_pos(i, cols);
            match axis {
                Axis::Horizontal => {
                    vstd::arithmetic::div_mod::lemma_mod_decreases(i as nat, cols as nat);
                    lemma_seq_sum_nonnegative(s.subrange(i - i % cols, i));
                    lemma_mul_nonnegative(i % cols, layout.grid_between(items, axis));
                },
                Axis::Vertical => {
                    lemma_lane_sum_nonnegative(s, cols, cols - 1, i);
                    lemma_mul_nonnegative(i / cols, layout.grid_between(items, axis));
                },
            }
        },
    }
}

/// A group without items has no positions, whatever its policy, and all of
/// them fit.
pub proof fn lemma_empty_group(layout: GroupLayout)
    ensures
        layout.fits(Seq::<MeasuredLayer>::empty()),
        layout.layout(Seq::<MeasuredLayer>::empty()) == Seq::<Placement>::empty(),
{
    assert(layout.layout(Seq::<MeasuredLayer>::empty()) =~= Seq::<Placement>::empty());
}

/// There is one position for each item, and the position at an index is
/// that of the item at this index.
pub proof fn lemma_layout_follows_items(layout: GroupLayout, items: Seq<MeasuredLayer>)
    ensures
        layout.layout(items).len() == items.len(),
        forall|i: int|
            0 <= i < items.len() ==> (#[trigger] layout.layout(items)[i]) == layout.placement(
                items,
                i,
            ),
        forall|i: int|
            0 <= i < items.len() ==> (#[trigger] layout.layout(items)[i]).anchor == Anchor::Canvas,
{
}

/// The first item of a line stands at the base, after the space in front;
/// with only one item in the group the space between neighbours has no part
/// in any position.
pub proof fn lemma_first_of_line(layout: GroupLayout, items: Seq<MeasuredLayer>, axis: Axis)
    requires
        0 < items.len(),
        layout.main_axis() == Some(axis),
    ensures
        layout.coordinate(items, axis, 0) == layout.base(items, axis) + leading_space(
            layout.mode_along(axis),
            slack(layout.container_extent(items, axis), layout.content_extent(items, axis)),
            items.len() as int,
        ),
{
    assert(lengths(items, axis).take(0) =~= Seq::<int>::empty());
}

/// Whether nothing is set that shares out free space: no distribution, the
/// items aligned left and justified at the start.
pub open spec fn is_plain(layout: GroupLayout) -> bool {
    &&& layout.distribution is None
    &&& layout.alignment == crate::model::GroupAlignment::Left
    &&& layout.justification == GroupJustification::Start
}

/// In a plain line each item follows the one before it at the distance of
/// the spacing, from the declared position of the group on, and none is
/// moved across the line.
pub proof fn lemma_plain_line(layout: GroupLayout, items: Seq<MeasuredLayer>, axis: Axis, i: int)
    requires
        is_plain(layout),
        layout.main_axis() == Some(axis),
        0 <= i < items.len(),
    ensures
        layout.coordinate(items, axis, i) == layout.origin(axis) + seq_sum(
            lengths(items, axis).take(i),
        ) + i * layout.spacing,
        layout.coordinate(items, axis.cross(), i) == layout.origin(axis.cross()),
{
}

/// A grid without distribution is laid out from the declared position of
/// the group with the plain spacing between columns and between rows,
/// whatever the alignment and the justification.
pub proof fn lemma_grid_without_distribution(
    layout: GroupLayout,
    items: Seq<MeasuredLayer>,
    i: int,
)
    requires
        layout.main_axis() is None,
        layout.distribution is None,
        0 <= i < items.len(),
    ensures
        layout.coordinate(items, Axis::Horizontal, i) == layout.origin(Axis::Horizontal) + seq_sum(
            lengths(items, Axis::Horizontal).subrange(
                i - i % layout.column_count(),
                i,
            ),
        ) + (i % layout.column_count()) * layout.spacing,
        layout.coordinate(items, Axis::Vertical, i) == layout.origin(Axis::Vertical) + lane_sum(
            lengths(items, Axis::Vertical),
            layout.column_count(),
            layout.column_count() - 1,
            i,
        ) + (i / layout.column_count()) * layout.spacing,
{
}

/// A line with a single item and no bounds puts it at the declared position
/// of the group, whatever the alignment and the justification, and this
/// fits.
pub proof fn lemma_single_item_without_bounds(layout: GroupLayout, items: Seq<MeasuredLayer>)
    requires
        items.len() == 1,
        layout.main_axis() is Some,
        layout.bounds() is None,
    ensures
        layout.coordinate(items, Axis::Horizontal, 0) == layout.origin(Axis::Horizontal),
        layout.coordinate(items, Axis::Vertical, 0) == layout.origin(Axis::Vertical),
        layout.fits(items),
{
    let w = lengths(items, Axis::Horizontal);
    let h = lengths(items, Axis::Vertical);
    assert(w.take(0) =~= Seq::<int>::empty());
    assert(h.take(0) =~= Seq::<int>::empty());
    assert(w.drop_last() =~= Seq::<int>::empty());
    assert(h.drop_last() =~= Seq::<int>::empty());
    assert(seq_max(w.drop_last()) == 0 && seq_max(h.drop_last()) == 0);
    assert(w.last() == items[0].dimensions.width && h.last() == items[0].dimensions.height);
    assert(seq_max(w) == w[0]);
    assert(seq_max(h) == h[0]);
    assert(seq_sum(w.drop_last()) == 0 && seq_sum(h.drop_last()) == 0);
    assert(seq_sum(w) == w[0]);
    assert(seq_sum(h) == h[0]);
    assert(layout.fits_at(items, 0));
}

/// Whether the pass leaves the coordinates of position `k` as they are.
pub open spec fn settled(positions: Seq<Placement>, names: Seq<Seq<char>>, k: int) -> bool {
    &&& resolved_at(positions, names, k).x == positions[k].x
    &&& resolved_at(positions, names, k).y == positions[k].y
}

/// Whether every layer that a position asks for keeps its own coordinates
/// in the pass.
///
/// This fails where a position asks for a layer whose own position asks for
/// a third that lies elsewhere.
pub open spec fn targets_settled(positions: Seq<Placement>, names: Seq<Seq<char>>) -> bool {
    forall|i: int|
        0 <= i < positions.len() ==> match (#[trigger] positions[i]).anchor {
            Anchor::Canvas => true,
            Anchor::Layer(name) => match first_named(names, name) {
                Some(k) => settled(positions, names, k),
                None => true,
            },
        }
}

/// A position that is relative to the canvas passes through unchanged, and
/// every position keeps its anchor.
pub proof fn lemma_resolution_keeps_canvas_positions(
    positions: Seq<Placement>,
    names: Seq<Seq<char>>,
    i: int,
)
    requires
        0 <= i < positions.len(),
    ensures
        resolution(positions, names)[i].anchor == positions[i].anchor,
        positions[i].anchor == Anchor::Canvas ==> resolution(positions, names)[i] == positions[i],
        dangling(resolution(positions, names), names, i) == dangling(positions, names, i),
{
}

/// A position that asks for a layer of the group ends on the coordinates
/// that this layer had before the pass, whatever its own were.
pub proof fn lemma_resolution_takes_raw_target(
    positions: Seq<Placement>,
    names: Seq<Seq<char>>,
    i: int,
    name: Seq<char>,
    k: int,
)
    requires
        0 <= i < positions.len(),
        positions.len() == names.len(),
        positions[i].anchor == Anchor::Layer(name),
        0 <= k < names.len(),
        names[k] == name,
        forall|j: int| 0 <= j < k ==> names[j] != name,
    ensures
        resolution(positions, names)[i].x == positions[k].x,
        resolution(positions, names)[i].y == positions[k].y,
{
    lemma_first_named_before(names, name, names.len() as int);
}

/// A second pass changes nothing, exactly where every layer that is asked
/// for keeps its coordinates in the first pass.
pub proof fn lemma_resolution_idempotent(positions: Seq<Placement>, names: Seq<Seq<char>>)
    requires
        positions.len() == names.len(),
    ensures
        targets_settled(positions, names) <==> resolution(resolution(positions, names), names)
            == resolution(positions, names),
{
    let once = resolution(positions, names);
    let twice = resolution(once, names);
    if targets_settled(positions, names) {
        assert forall|i: int| 0 <= i < once.len() implies twice[i] == once[i] by {
            match positions[i].anchor {
                Anchor::Canvas => {},
                Anchor::Layer(name) => {
                    lemma_first_named_before(names, name, names.len() as int);
                },
            }
        }
        assert(twice =~= once);
    }
    if twice == once {
        assert forall|i: int| 0 <= i < positions.len() implies match (#[trigger] positions[i]).anchor {
            Anchor::Canvas => true,
            Anchor::Layer(name) => match first_named(names, name) {
                Some(k) => settled(positions, names, k),
                None => true,
            },
        } by {
            match positions[i].anchor {
                Anchor::Canvas => {},
                Anchor::Layer(name) => {
                    lemma_first_named_before(names, name, names.len() as int);
                    match first_named(names, name) {
                        Some(k) => {
                            assert(twice[i] == once[i]);
                            assert(twice[i].x == once[k].x);
                            assert(once[i].x == positions[k].x);
                        },
                        None => {},
                    }
                },
            }
        }
    }
}

/// Where every layer that is asked for is itself relative to the canvas, a
/// second pass changes nothing.
pub proof fn lemma_resolution_idempotent_on_canvas_targets(
    positions: Seq<Placement>,
    names: Seq<Seq<char>>,
)
    requires
        positions.len() == names.len(),
        forall|i: int, name: Seq<char>|
            0 <= i < positions.len() && (#[trigger] positions[i]).anchor == Anchor::Layer(name)
                ==> match #[trigger] first_named(names, name) {
                Some(k) => positions[k].anchor == Anchor::Canvas,
                None => true,
            },
    ensures
        resolution(resolution(positions, names), names) == resolution(positions, names),
{
    assert(targets_settled(positions, names)) by {
        assert forall|i: int| 0 <= i < positions.len() implies match (#[trigger] positions[i]).anchor {
            Anchor::Canvas => true,
            Anchor::Layer(name) => match first_named(names, name) {
                Some(k) => settled(positions, names, k),
                None => true,
            },
        } by {
            match positions[i].anchor {
                Anchor::Canvas => {},
                Anchor::Layer(name) => {
                    lemma_first_named_before(names, name, names.len() as int);
                },
            }
        }
    }
    lemma_resolution_idempotent(positions, names);
}

} // verus!
