//! Free space and how it is shared out.
//!
//! The free space ("slack") on an axis is what the container has beyond the
//! content, and never less than nothing. The alignment of a group says how
//! much of it goes in front of something; the justification says how much
//! goes in front of the first item and between neighbours.

use vstd::prelude::*;
use crate::model::{Axis, DistributionMode, GroupAlignment, GroupJustification};

verus! {

/// What `container` has beyond `content`, floored at zero.
pub open spec fn slack(container: int, content: int) -> int {
    if container > content {
        container - content
    } else {
        0
    }
}

/// The part of `free` that `alignment` puts in front along `axis`.
///
/// `Center` puts half of it in front on either axis. `Right` puts all of it
/// in front horizontally, `Bottom` vertically. Everything else puts nothing
/// in front.
pub open spec fn aligned_shift(alignment: GroupAlignment, axis: Axis, free: int) -> int {
    match alignment {
        GroupAlignment::Center => free / 2,
        GroupAlignment::Right => if axis == Axis::Horizontal {
            free
        } else {
            0
        },
        GroupAlignment::Bottom => if axis == Axis::Vertical {
            free
        } else {
            0
        },
        _ => 0,
    }
}

impl DistributionMode {
    /// The justification that shares out space the same way.
    pub open spec fn justification(self) -> GroupJustification {
        match self {
            DistributionMode::SpaceBetween => GroupJustification::SpaceBetween,
            DistributionMode::SpaceAround => GroupJustification::SpaceAround,
            DistributionMode::SpaceEvenly => GroupJustification::SpaceEvenly,
        }
    }

    pub fn to_justification(&self) -> (justification: GroupJustification)
        ensures
            justification == self.justification(),
    {
        match self {
            DistributionMode::SpaceBetween => GroupJustification::SpaceBetween,
            DistributionMode::SpaceAround => GroupJustification::SpaceAround,
            DistributionMode::SpaceEvenly => GroupJustification::SpaceEvenly,
        }
    }
}

/// The mode in force on an axis: the distribution mode chosen for that axis
/// where there is one, else the group's justification.
pub open spec fn mode_in_force(
    justification: GroupJustification,
    chosen: Option<DistributionMode>,
) -> GroupJustification {
    match chosen {
        Some(mode) => mode.justification(),
        None => justification,
    }
}

/// Space in front of the first of `count` items.
pub open spec fn leading_space(mode: GroupJustification, free: int, count: int) -> int {
    match mode {
        GroupJustification::Start => 0,
        GroupJustification::Center => free / 2,
        GroupJustification::End => free,
        GroupJustification::SpaceBetween => 0,
        GroupJustification::SpaceAround => free / (count + 1),
        GroupJustification::SpaceEvenly => free / (count + 2),
    }
}

/// Space between two neighbours among `count` items.
///
/// `SpaceBetween` shares the free space among the `count - 1` places
/// between neighbours; with one item or none there is no such place and the
/// space is 0.
pub open spec fn between_space(
    mode: GroupJustification,
    spacing: int,
    free: int,
    count: int,
) -> int {
    match mode {
        GroupJustification::Start => spacing,
        GroupJustification::Center => spacing,
        GroupJustification::End => spacing,
        GroupJustification::SpaceBetween => if count <= 1 {
            0
        } else {
            free / (count - 1)
        },
        GroupJustification::SpaceAround => free / (count + 1),
        GroupJustification::SpaceEvenly => free / (count + 2),
    }
}

/// See [`slack`].
pub fn slack_of(container: u128, content: u128) -> (free: u128)
    ensures
        free == slack(container as int, content as int),
        free <= container,
{
    if container > content {
        container - content
    } else {
        0
    }
}

/// See [`aligned_shift`].
pub fn shift_of(alignment: GroupAlignment, axis: Axis, free: u128) -> (shift: u128)
    ensures
        shift == aligned_shift(alignment, axis, free as int),
        shift <= free,
{
    match alignment {
        GroupAlignment::Center => free / 2,
        GroupAlignment::Right => match axis {
            Axis::Horizontal => free,
            Axis::Vertical => 0,
        },
        GroupAlignment::Bottom => match axis {
            Axis::Horizontal => 0,
            Axis::Vertical => free,
        },
        _ => 0,
    }
}

/// See [`mode_in_force`].
pub fn pick_mode(justification: GroupJustification, chosen: Option<DistributionMode>) -> (mode:
    GroupJustification)
    ensures
        mode == mode_in_force(justification, chosen),
{
    match chosen {
        Some(mode) => mode.to_justification(),
        None => justification,
    }
}

/// The space in front of the first of `count` items and the space between
/// neighbours, in this order, when `free` is the free space on the axis and
/// `spacing` the group's plain spacing.
///
/// Never divides by zero, whatever `count` is.
pub fn axis_spacing(mode: GroupJustification, spacing: u32, free: u128, count: usize) -> (spaces: (
    u128,
    u128,
))
    ensures
        spaces.0 == leading_space(mode, free as int, count as int),
        spaces.1 == between_space(mode, spacing as int, free as int, count as int),
        spaces.0 <= free,
        spaces.1 <= free || spaces.1 == spacing,
        mode == GroupJustification::SpaceBetween && count <= 1 ==> spaces.1 == 0,
{
    let n = count as u128;
    match mode {
        GroupJustification::Start => (0, spacing as u128),
        GroupJustification::Center => (free / 2, spacing as u128),
        GroupJustification::End => (free, spacing as u128),
        GroupJustification::SpaceBetween => {
            if count <= 1 {
                (0, 0)
            } else {
                (0, free / (n - 1))
            }
        },
        GroupJustification::SpaceAround => {
            let share = free / (n + 1);
            (share, share)
        },
        GroupJustification::SpaceEvenly => {
            let share = free / (n + 2);
            (share, share)
        },
    }
}

} // verus!
