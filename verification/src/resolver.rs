//! Resolving positions that ask to sit where another layer sits.
//!
//! A position whose anchor is `Layer(name)` takes over the coordinates of the
//! first layer of the group called `name`. The coordinates taken are those
//! that layer had before anything was resolved: there is one pass, and a
//! request that points at another request gets the raw coordinates of its
//! target, not the resolved ones. The anchor itself stays as it was.
//!
//! A request that names no layer of the group is an error.

use vstd::prelude::*;
use vstd::string::StringExecFns;
use crate::model::{names, placements, Anchor, MeasuredLayer, Placement, Position, RelativeTo};

verus! {

/// What can go wrong when positions are resolved.
#[derive(Clone, Debug, PartialEq, Eq)]
pub enum LayoutError {
    /// A position asks for a layer that the group does not have.
    UnresolvedLayerReference { name: String },
}

impl LayoutError {
    /// The name that was asked for.
    pub open spec fn missing_name(self) -> Seq<char> {
        match self {
            LayoutError::UnresolvedLayerReference { name } => name@,
        }
    }

    /// The name that was asked for.
    pub fn name(&self) -> (name: &String)
        ensures
            name@ == self.missing_name(),
    {
        match self {
            LayoutError::UnresolvedLayerReference { name } => name,
        }
    }

    /// A sentence that says what went wrong.
    pub fn message(&self) -> (text: String)
        ensures
            text@ == "unresolved layer reference: "@ + self.missing_name(),
    {
        String::from_str("unresolved layer reference: ").concat(self.name().as_str())
    }
}

/// Index of the first of the first `upto` names that equals `name`.
pub open spec fn first_named_before(names: Seq<Seq<char>>, name: Seq<char>, upto: int) -> Option<
    int,
>
    decreases upto,
{
    if upto <= 0 {
        None
    } else {
        match first_named_before(names, name, upto - 1) {
            Some(k) => Some(k),
            None => if names[upto - 1] == name {
                Some(upto - 1)
            } else {
                None
            },
        }
    }
}

/// Index of the first name that equals `name`.
pub open spec fn first_named(names: Seq<Seq<char>>, name: Seq<char>) -> Option<int> {
    first_named_before(names, name, names.len() as int)
}

/// Whether position `i` asks for a layer that is not there.
pub open spec fn dangling(positions: Seq<Placement>, names: Seq<Seq<char>>, i: int) -> bool {
    match positions[i].anchor {
        Anchor::Canvas => false,
        Anchor::Layer(name) => first_named(names, name) is None,
    }
}

/// Position `i` after the pass: with the coordinates of the layer it asks
/// for, where it asks for one that is there, else unchanged.
pub open spec fn resolved_at(positions: Seq<Placement>, names: Seq<Seq<char>>, i: int) -> Placement {
    match positions[i].anchor {
        Anchor::Canvas => positions[i],
        Anchor::Layer(name) => match first_named(names, name) {
            Some(k) => Placement { x: positions[k].x, y: positions[k].y, anchor: positions[i].anchor },
            None => positions[i],
        },
    }
}

/// All positions after the pass, in the same order.
pub open spec fn resolution(positions: Seq<Placement>, names: Seq<Seq<char>>) -> Seq<Placement> {
    Seq::new(positions.len(), |i: int| resolved_at(positions, names, i))
}

/// What [`first_named_before`] finds is the first match, and where it finds
/// nothing there is no match.
pub proof fn lemma_first_named_before(names: Seq<Seq<char>>, name: Seq<char>, upto: int)
    requires
        0 <= upto <= names.len(),
    ensures
        match first_named_before(names, name, upto) {
            Some(k) => {
                &&& 0 <= k < upto
                &&& names[k] == name
                &&& forall|j: int| 0 <= j < k ==> names[j] != name
            },
            None => forall|j: int| 0 <= j < upto ==> names[j] != name,
        },
    decreases upto,
{
    if upto > 0 {
        lemma_first_named_before(names, name, upto - 1);
    }
}

/// A match found among the first `upto` names is the match found among more.
pub proof fn lemma_first_named_stays(names: Seq<Seq<char>>, name: Seq<char>, upto: int, more: int)
    requires
        0 <= upto <= more,
        first_named_before(names, name, upto) is Some,
    ensures
        first_named_before(names, name, more) == first_named_before(names, name, upto),
    decreases more - upto,
{
    if upto < more {
        lemma_first_named_stays(names, name, upto, more - 1);
    }
}

/// Index of the first item called `name`.
pub fn find_layer(items: &Vec<MeasuredLayer>, name: &String) -> (found: Option<usize>)
    ensures
        match found {
            Some(k) => first_named(names(items@), name@) == Some(k as int) && k < items.len(),
            None => first_named(names(items@), name@) is None,
        },
{
    let ghost all = names(items@);
    let mut i: usize = 0;
    while i < items.len()
        invariant
            i <= items.len(),
            all == names(items@),
            first_named_before(all, name@, i as int) is None,
        decreases items.len() - i,
    {
        if items[i].info.name == *name {
            proof {
                assert(all[i as int] == name@);
                lemma_first_named_stays(all, name@, i + 1, all.len() as int);
            }
            return Some(i);
        }
        i = i + 1;
    }
    None
}

/// The positions with every request carried out.
///
/// Position `i` belongs to item `i`. On success every position that asks for
/// a layer has the coordinates that the first item of that name had in
/// `positions`, and every other position is unchanged. Where some position
/// asks for a name that no item has, the first such name comes back as the
/// error.
pub fn resolve(positions: &Vec<Position>, items: &Vec<MeasuredLayer>) -> (resolved: Result<
    Vec<Position>,
    LayoutError,
>)
    requires
        positions.len() == items.len(),
    ensures
        resolved is Ok <==> forall|i: int|
            0 <= i < positions.len() ==> !#[trigger] dangling(
                placements(positions@),
                names(items@),
                i,
            ),
        resolved matches Ok(out) ==> placements(out@) == resolution(
            placements(positions@),
            names(items@),
        ),
        resolved matches Ok(out) ==> out@.len() == positions@.len(),
        resolved matches Err(error) ==> exists|i: int|
            {
                &&& 0 <= i < positions.len()
                &&& #[trigger] dangling(placements(positions@), names(items@), i)
                &&& forall|j: int|
                    0 <= j < i ==> !#[trigger] dangling(placements(positions@), names(items@), j)
                &&& placements(positions@)[i].anchor == Anchor::Layer(error.missing_name())
            },
{
    let ghost before = placements(positions@);
    let ghost all = names(items@);
    let n = positions.len();
    let mut out: Vec<Position> = Vec::new();
    let mut i: usize = 0;
    while i < n
        invariant
            i <= n,
            n == positions.len(),
            n == items.len(),
            before == placements(positions@),
            all == names(items@),
            out.len() == i,
            forall|j: int| 0 <= j < i ==> !#[trigger] dangling(before, all, j),
            forall|j: int| 0 <= j < i ==> (#[trigger] out[j])@ == resolved_at(before, all, j),
        decreases n - i,
    {
        proof {
            assert(before[i as int] == positions[i as int]@);
        }
        let position = match &positions[i].relative_to {
            RelativeTo::Canvas => positions[i].duplicate(),
            RelativeTo::Layer(name) => match find_layer(items, name) {
                Some(k) => {
                    proof {
                        assert(before[k as int] == positions[k as int]@);
                    }
                    Position {
                        x: positions[k].x,
                        y: positions[k].y,
                        relative_to: positions[i].relative_to.duplicate(),
                    }
                },
                None => {
                    let error = LayoutError::UnresolvedLayerReference { name: name.clone() };
                    proof {
                        assert(dangling(before, all, i as int));
                        assert(before[i as int].anchor == Anchor::Layer(error.missing_name()));
                    }
                    return Err(error);
                },
            },
        };
        out.push(position);
        i = i + 1;
    }
    proof {
        assert(placements(out@) =~= resolution(before, all));
    }
    Ok(out)
}

} // verus!
