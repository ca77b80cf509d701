//! From the measured layers of a group to where each is drawn.
//!
//! The layout gives every layer a position on the canvas. A layer may
//! declare that it wants to sit where another layer sits; that request is
//! the anchor of the position the layer declares for itself, and its
//! declared coordinates play no part. The requests are put on the positions
//! of the layout and then carried out in one pass.

use vstd::prelude::*;
use crate::model::{
    names, placements, Anchor, GroupLayout, MeasuredLayer, Placement, Position, RelativeTo,
};
use crate::resolver::{dangling, resolution, resolve, LayoutError};

verus! {

/// What a layer asks for: the anchor of the position it declares, and the
/// canvas where it declares none.
pub open spec fn requested_anchor(item: MeasuredLayer) -> Anchor {
    match item.info.position {
        Some(position) => position.relative_to@,
        None => Anchor::Canvas,
    }
}

/// The positions with the anchor of each replaced by what its layer asks for.
pub open spec fn with_requests(positions: Seq<Placement>, items: Seq<MeasuredLayer>) -> Seq<
    Placement,
> {
    Seq::new(
        positions.len(),
        |i: int|
            Placement { x: positions[i].x, y: positions[i].y, anchor: requested_anchor(items[i]) },
    )
}

/// What a layer asks for.
pub fn request_of(item: &MeasuredLayer) -> (anchor: RelativeTo)
    ensures
        anchor@ == requested_anchor(*item),
{
    match &item.info.position {
        Some(position) => position.relative_to.duplicate(),
        None => RelativeTo::Canvas,
    }
}

/// The positions, each with the request of its layer for an anchor and with
/// its coordinates unchanged. Position `i` belongs to item `i`.
pub fn attach_requests(positions: &Vec<Position>, items: &Vec<MeasuredLayer>) -> (requests: Vec<
    Position,
>)
    requires
        positions.len() == items.len(),
    ensures
        placements(requests@) == with_requests(placements(positions@), items@),
        requests@.len() == positions@.len(),
{
    let n = positions.len();
    let mut requests: Vec<Position> = Vec::new();
    let mut i: usize = 0;
    while i < n
        invariant
            i <= n,
            n == positions.len(),
            n == items.len(),
            requests.len() == i,
            forall|j: int|
                0 <= j < i ==> (#[trigger] requests[j])@ == with_requests(
                    placements(positions@),
                    items@,
                )[j],
        decreases n - i,
    {
        let position = Position {
            x: positions[i].x,
            y: positions[i].y,
            relative_to: request_of(&items[i]),
        };
        requests.push(position);
        i = i + 1;
    }
    proof {
        assert(placements(requests@) =~= with_requests(placements(positions@), items@));
    }
    requests
}

impl GroupLayout {
    /// The placements of the layout with every request of a layer on them,
    /// before any is carried out.
    pub open spec fn requests(self, items: Seq<MeasuredLayer>) -> Seq<Placement> {
        with_requests(self.layout(items), items)
    }

    /// Where each layer of the group is drawn, in the order of the layers:
    /// the layout, with every request carried out.
    ///
    /// `None` where the layout does not fit the coordinates of a position.
    /// An error where a layer asks for a name that no layer of the group
    /// has: the first such name.
    pub fn try_calculate_positions(&self, items: &Vec<MeasuredLayer>) -> (outcome: Option<
        Result<Vec<Position>, LayoutError>,
    >)
        ensures
            outcome is Some <==> self.fits(items@),
            outcome matches Some(resolved) ==> {
                &&& resolved is Ok <==> forall|i: int|
                    0 <= i < items.len() ==> !#[trigger] dangling(
                        self.requests(items@),
                        names(items@),
                        i,
                    )
                &&& resolved matches Ok(out) ==> placements(out@) == resolution(
                    self.requests(items@),
                    names(items@),
                ) && out@.len() == items@.len()
                &&& resolved matches Err(error) ==> exists|i: int|
                    {
                        &&& 0 <= i < items.len()
                        &&& #[trigger] dangling(self.requests(items@), names(items@), i)
                        &&& forall|j: int|
                            0 <= j < i ==> !#[trigger] dangling(
                                self.requests(items@),
                                names(items@),
                                j,
                            )
                        &&& requested_anchor(items@[i]) == Anchor::Layer(error.missing_name())
                    }
            },
    {
        match self.try_compute_positions(items) {
            None => None,
            Some(positions) => {
                let requests = attach_requests(&positions, items);
                let resolved = resolve(&requests, items);
                proof {
                    assert(placements(requests@) == self.requests(items@));
                    assert(self.requests(items@).len() == items@.len());
                }
                Some(resolved)
            },
        }
    }

    /// Where each layer of the group is drawn, in the order of the layers:
    /// the layout, with every request carried out.
    ///
    /// An error where a layer asks for a name that no layer of the group
    /// has: the first such name.
    pub fn calculate_positions(&self, items: &Vec<MeasuredLayer>) -> (resolved: Result<
        Vec<Position>,
        LayoutError,
    >)
        requires
            self.fits(items@),
        ensures
            resolved is Ok <==> forall|i: int|
                0 <= i < items.len() ==> !#[trigger] dangling(
                    self.requests(items@),
                    names(items@),
                    i,
                ),
            resolved matches Ok(out) ==> placements(out@) == resolution(
                self.requests(items@),
                names(items@),
            ) && out@.len() == items@.len(),
            resolved matches Err(error) ==> exists|i: int|
                {
                    &&& 0 <= i < items.len()
                    &&& #[trigger] dangling(self.requests(items@), names(items@), i)
                    &&& forall|j: int|
                        0 <= j < i ==> !#[trigger] dangling(
                            self.requests(items@),
                            names(items@),
                            j,
                        )
                    &&& requested_anchor(items@[i]) == Anchor::Layer(error.missing_name())
                },
    {
        let positions = self.compute_positions(items);
        let requests = attach_requests(&positions, items);
        proof {
            assert(placements(requests@) == self.requests(items@));
            assert(self.requests(items@).len() == items@.len());
        }
        resolve(&requests, items)
    }
}

} // verus!
