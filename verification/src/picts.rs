//! The marks the editor draws at special points: masks of an end point, a tangent point, a
//! crossing, a grid point and a centre.

use vstd::prelude::*;
use crate::image::{CoordOp, Image, in_size};

verus! {

/// The side of the point marks.
pub open spec fn mark_size() -> usize {
    17
}

/// The side of the grid point mark.
pub open spec fn grid_mark_size() -> usize {
    27
}

/// The coordinate `v` of a mark of side `size`, doubled and taken from the mark's centre.
pub open spec fn centred(v: usize, size: usize) -> int {
    2 * v - (size - 1)
}

/// The square's border.
pub open spec fn end_point_at(x: usize, y: usize, size: usize) -> bool {
    x == 0 || x == size - 1 || y == 0 || y == size - 1
}

/// The two diagonals.
pub open spec fn cross_point_at(x: usize, y: usize, size: usize) -> bool {
    x == y || x + y == size - 1
}

/// A ring with a line over it.
pub open spec fn tangent_point_at(x: usize, y: usize, size: usize) -> bool {
    let cx = centred(x, size);
    let cy = centred(y, size);
    let r2 = cx * cx + cy * cy;
    y == 0 || (r2 <= (size - 3) * (size - 3) + 4 && r2 > (size - 5) * (size - 5) + 4)
}

/// Two short lines across each other, with a gap at the centre.
pub open spec fn grid_point_at(x: usize, y: usize, size: usize) -> bool {
    let ax = if centred(x, size) >= 0 { centred(x, size) } else { -centred(x, size) };
    let ay = if centred(y, size) >= 0 { centred(y, size) } else { -centred(y, size) };
    (ax == 2 || ay == 2) && ax >= 2 && ay >= 2
}

/// A ring.
pub open spec fn center_point_at(x: usize, y: usize, size: usize) -> bool {
    let cx = centred(x, size);
    let cy = centred(y, size);
    let r2 = cx * cx + cy * cy;
    r2 <= (size - 1) * (size - 1) + 16 && r2 > (size - 3) * (size - 3) + 16
}

/// Which mark a shape draws.
#[derive(PartialEq, Eq, Structural, Copy, Clone)]
pub enum MarkKind {
    EndPoint,
    TangentPoint,
    CrossPoint,
    GridPoint,
    CenterPoint,
}

/// Whether the pixel at `(x, y)` of a mark of the given kind and side is set.
pub open spec fn mark_at(kind: MarkKind, x: usize, y: usize, size: usize) -> bool {
    match kind {
        MarkKind::EndPoint => end_point_at(x, y, size),
        MarkKind::TangentPoint => tangent_point_at(x, y, size),
        MarkKind::CrossPoint => cross_point_at(x, y, size),
        MarkKind::GridPoint => grid_point_at(x, y, size),
        MarkKind::CenterPoint => center_point_at(x, y, size),
    }
}

/// Draws a mark of side `size` (pixels outside the square stay).
pub struct MarkShape {
    pub kind: MarkKind,
    pub size: usize,
}

impl CoordOp<bool> for MarkShape {
    open spec fn spec_apply_at(&self, pixel: bool, x: usize, y: usize) -> bool {
        if 0 < self.size <= 1000 && x < self.size && y < self.size {
            mark_at(self.kind, x, y, self.size)
        } else {
            pixel
        }
    }

    fn apply_at(&self, pixel: bool, x: usize, y: usize) -> (r: bool) {
        if !(0 < self.size && self.size <= 1000 && x < self.size && y < self.size) {
            return pixel;
        }
        let size = self.size as i64;
        let last = size - 1;
        let cx: i64 = 2 * (x as i64) - last;
        let cy: i64 = 2 * (y as i64) - last;
        assert(0 <= cx * cx <= 4_000_000 && 0 <= cy * cy <= 4_000_000) by (nonlinear_arith)
            requires
                -1000 <= cx <= 2000,
                -1000 <= cy <= 2000,
        ;
        let r2: i64 = cx * cx + cy * cy;
        assert(0 <= (size - 1) * (size - 1) <= 1_000_000 && 0 <= (size - 3) * (size - 3) <= 1_000_000
            && 0 <= (size - 5) * (size - 5) <= 1_000_000) by (nonlinear_arith)
            requires
                1 <= size <= 1000,
        ;
        match self.kind {
            MarkKind::EndPoint => x == 0 || x == self.size - 1 || y == 0 || y == self.size - 1,
            MarkKind::CrossPoint => x == y || x + y == self.size - 1,
            MarkKind::TangentPoint => y == 0 || (r2 <= (size - 3) * (size - 3) + 4 && r2 > (size - 5)
                * (size - 5) + 4),
            MarkKind::GridPoint => {
                let ax = if cx >= 0 { cx } else { -cx };
                let ay = if cy >= 0 { cy } else { -cy };
                (ax == 2 || ay == 2) && ax >= 2 && ay >= 2
            },
            MarkKind::CenterPoint => r2 <= (size - 1) * (size - 1) + 16 && r2 > (size - 3) * (size
                - 3) + 16,
        }
    }
}

/// A square mask of side `size` showing the mark of the given kind.
fn make_mark(kind: MarkKind, size: usize) -> (r: Image<bool>)
    requires
        0 < size <= 1000,
    ensures
        r.spec_size() == (size, size),
        forall|x: int, y: int|
            #![trigger r.spec_at(x, y)]
            in_size((size, size), x, y) ==> r.spec_at(x, y) == mark_at(kind, x as usize, y as usize, size),
{
    assert(size * size <= 1_000_000) by (nonlinear_arith)
        requires
            0 < size <= 1000,
    ;
    let mut view = Image::<bool>::new((size, size)).view_mut();
    view.fill_with_coord(&MarkShape { kind, size });
    let r = view.into_image();
    assert forall|x: int, y: int|
        #![trigger r.spec_at(x, y)]
        in_size((size, size), x, y) implies r.spec_at(x, y) == mark_at(kind, x as usize, y as usize, size) by {
        assert(view.spec_at(x, y) == r.spec_at(x, y));
    }
    r
}

/// The marks the editor draws at special points.
pub struct Picts {
    pub end_point: Image<bool>,
    pub tangent_point: Image<bool>,
    pub cross_point: Image<bool>,
    pub grid_point: Image<bool>,
    pub center_point: Image<bool>,
}

/// `image` is a square of side `size` showing the mark of the given kind.
pub open spec fn shows_mark(image: Image<bool>, kind: MarkKind, size: usize) -> bool {
    &&& image.spec_size() == (size, size)
    &&& forall|x: int, y: int|
        #![trigger image.spec_at(x, y)]
        in_size((size, size), x, y) ==> image.spec_at(x, y) == mark_at(kind, x as usize, y as usize, size)
}

impl Picts {
    /// The five marks: the point marks 17 pixels wide, the grid point 27.
    pub fn new() -> (r: Self)
        ensures
            shows_mark(r.end_point, MarkKind::EndPoint, mark_size()),
            shows_mark(r.tangent_point, MarkKind::TangentPoint, mark_size()),
            shows_mark(r.cross_point, MarkKind::CrossPoint, mark_size()),
            shows_mark(r.grid_point, MarkKind::GridPoint, grid_mark_size()),
            shows_mark(r.center_point, MarkKind::CenterPoint, mark_size()),
    {
        let size: usize = 17;
        let grid_point_size: usize = 27;
        Picts {
            end_point: make_mark(MarkKind::EndPoint, size),
            tangent_point: make_mark(MarkKind::TangentPoint, size),
            cross_point: make_mark(MarkKind::CrossPoint, size),
            grid_point: make_mark(MarkKind::GridPoint, grid_point_size),
            center_point: make_mark(MarkKind::CenterPoint, size),
        }
    }
}

} // verus!
