//! What the drawing holds besides curves: groups of entities and the kinds of points the
//! cursor is drawn to.

use vstd::prelude::*;
use std::collections::HashSet;

verus! {

/// A group of entities of the drawing, by their ids, and whether it is selected.
#[derive(Debug)]
pub struct Group {
    pub ids: HashSet<usize>,
    pub selected: bool,
}

impl Default for Group {
    /// An empty group, not selected.
    fn default() -> (r: Self)
        ensures
            r.ids@ == Set::<usize>::empty(),
            !r.selected,
    {
        Group { ids: HashSet::new(), selected: false }
    }
}

/// What kind of point the cursor is drawn to: none, an end of a curve, a crossing, a node of
/// the grid, or the centre of, a tangent to or a normal to the curve with the given id.
#[derive(PartialEq, Eq, Structural, Copy, Clone, Debug)]
pub enum HighlightPointKind {
    NoPoint,
    End,
    Cross,
    Grid,
    Center(usize),
    Tangent(usize),
    Normal(usize),
}

impl Default for HighlightPointKind {
    /// No point.
    fn default() -> (r: Self)
        ensures
            r == HighlightPointKind::NoPoint,
    {
        HighlightPointKind::NoPoint
    }
}

} // verus!
