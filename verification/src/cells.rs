//! Cells of a tiling: polygons given by the angle at each corner and the kind of side after
//! it, which can be rolled to start at another corner and mirrored.

use vstd::prelude::*;

verus! {

/// A corner of a cell: the angle at it, in pieces of a full turn, and the kind of the side
/// that follows it.
#[derive(PartialEq, Eq, Structural, Copy, Clone, Debug, Hash)]
struct CellItem {
    angle: i32,
    segment: i32,
}

/// A cell: its corners in order around it, at least three, each with a positive angle and a
/// side kind that is not negative.
#[derive(PartialEq, Eq, Debug, Hash)]
pub struct Cell {
    items: Vec<CellItem>,
}

/// Whether `items` can be the corners of a cell.
pub open spec fn valid_corners(items: Seq<(i32, i32)>) -> bool {
    &&& items.len() >= 3
    &&& forall|i: int| 0 <= i < items.len() ==> (#[trigger] items[i]).0 > 0 && items[i].1 >= 0
}

/// The corners starting at corner `count`, going round.
pub open spec fn rolled(items: Seq<(i32, i32)>, count: int) -> Seq<(i32, i32)> {
    items.subrange(count, items.len() as int) + items.subrange(0, count)
}

/// The corners of the mirror image: in reverse order, each side keeping its kind and each
/// corner its angle, the first corner staying first.
pub open spec fn mirrored(items: Seq<(i32, i32)>) -> Seq<(i32, i32)> {
    let n = items.len() as int;
    Seq::new(items.len(), |k: int| (items[(n - k) % n].0, items[n - 1 - k].1))
}

spec fn pair_of(item: CellItem) -> (i32, i32) {
    (item.angle, item.segment)
}

impl View for Cell {
    type V = Seq<(i32, i32)>;

    /// The corners, as pairs of angle and side kind.
    closed spec fn view(&self) -> Seq<(i32, i32)> {
        self.items@.map_values(|item: CellItem| pair_of(item))
    }
}

impl Clone for Cell {
    /// A cell with the same corners.
    fn clone(&self) -> (r: Self)
        ensures
            r@ == self@,
    {
        proof {
            use_type_invariant(self);
        }
        let mut v: Vec<CellItem> = Vec::new();
        let mut i: usize = 0;
        while i < self.items.len()
            invariant
                i <= self.items@.len(),
                v@.len() == i,
                forall|j: int| 0 <= j < i ==> #[trigger] v@[j] == self.items@[j],
            decreases self.items@.len() - i,
        {
            v.push(self.items[i]);
            i = i + 1;
        }
        assert(v@ =~= self.items@);
        let r = Cell { items: v };
        r
    }
}

impl Cell {
    #[verifier::type_invariant]
    spec fn well_formed(self) -> bool {
        valid_corners(self@)
    }

    /// A cell with the given corners, pairs of angle and side kind.
    pub fn new(items: &[(i32, i32)]) -> (r: Self)
        requires
            valid_corners(items@),
        ensures
            r@ == items@,
    {
        let mut v: Vec<CellItem> = Vec::new();
        let mut i: usize = 0;
        while i < items.len()
            invariant
                i <= items@.len(),
                v@.len() == i,
                forall|j: int| 0 <= j < i ==> pair_of(#[trigger] v@[j]) == items@[j],
            decreases items@.len() - i,
        {
            let (angle, segment) = items[i];
            v.push(CellItem { angle, segment });
            i = i + 1;
        }
        let r = Cell { items: v };
        assert(r@ =~= items@);
        r
    }

    /// The number of corners.
    pub fn len(&self) -> (r: usize)
        ensures
            r == self@.len(),
            r >= 3,
    {
        proof {
            use_type_invariant(self);
        }
        self.items.len()
    }

    /// Corner `i`: its angle and the kind of the side after it.
    pub fn corner(&self, i: usize) -> (r: (i32, i32))
        requires
            i < self@.len(),
        ensures
            r == self@[i as int],
    {
        let item = self.items[i];
        (item.angle, item.segment)
    }

    /// The same cell, starting at corner `count`.
    pub fn roll(self, count: i32) -> (r: Self)
        requires
            0 <= count <= self@.len(),
        ensures
            r@ == rolled(self@, count as int),
    {
        proof {
            use_type_invariant(&self);
        }
        let n = self.items.len();
        let start = count as usize;
        let mut v: Vec<CellItem> = Vec::new();
        let mut k: usize = 0;
        while k < n
            invariant
                n == self.items@.len(),
                start <= n,
                k <= n,
                v@.len() == k,
                forall|j: int|
                    0 <= j < k ==> #[trigger] v@[j] == self.items@[if j < n - start {
                        start + j
                    } else {
                        j - (n - start)
                    }],
            decreases n - k,
        {
            let idx = if k < n - start { start + k } else { k - (n - start) };
            v.push(self.items[idx]);
            k = k + 1;
        }
        let ghost rs = rolled(self@, count as int);
        assert(v@.map_values(|item: CellItem| pair_of(item)) =~= rs);
        assert forall|i: int| 0 <= i < rs.len() implies (#[trigger] rs[i]).0 > 0 && rs[i].1 >= 0 by {
            if i < n - start {
                assert(rs[i] == self@[start + i]);
            } else {
                assert(rs[i] == self@[i - (n - start)]);
            }
        }
        let r = Cell { items: v };
        r
    }

    /// The mirror image of the cell.
    pub fn mirror(self) -> (r: Self)
        ensures
            r@ == mirrored(self@),
    {
        proof {
            use_type_invariant(&self);
        }
        let n = self.items.len();
        let mut v: Vec<CellItem> = Vec::new();
        let mut k: usize = 0;
        while k < n
            invariant
                n == self.items@.len(),
                n >= 3,
                k <= n,
                v@.len() == k,
                forall|j: int|
                    0 <= j < k ==> #[trigger] pair_of(v@[j]) == mirrored(self@)[j],
            decreases n - k,
        {
            let from = if k == 0 { 0 } else { n - k };
            proof {
                if k == 0 {
                    vstd::arithmetic::div_mod::lemma_mod_self_0(n as int);
                } else {
                    vstd::arithmetic::div_mod::lemma_small_mod((n - k) as nat, n as nat);
                }
            }
            assert(from as int == ((n as int) - (k as int)) % (n as int));
            let item = CellItem { angle: self.items[from].angle, segment: self.items[n - 1 - k].segment };
            v.push(item);
            k = k + 1;
        }
        let ghost ms = mirrored(self@);
        assert(v@.map_values(|item: CellItem| pair_of(item)) =~= ms);
        assert forall|i: int| 0 <= i < ms.len() implies (#[trigger] ms[i]).0 > 0 && ms[i].1 >= 0 by {
            let nn = n as int;
            if i == 0 {
                vstd::arithmetic::div_mod::lemma_mod_self_0(nn);
            } else {
                vstd::arithmetic::div_mod::lemma_small_mod((nn - i) as nat, nn as nat);
            }
            assert(self@[(nn - i) % nn].0 > 0);
            assert(self@[nn - 1 - i].1 >= 0);
        }
        let r = Cell { items: v };
        r
    }
}

/// A cell mirrored twice is the cell itself.
pub proof fn law_mirror_twice(items: Seq<(i32, i32)>)
    requires
        items.len() > 0,
    ensures
        mirrored(mirrored(items)) == items,
{
    let n = items.len() as int;
    let m = mirrored(items);
    assert forall|k: int| 0 <= k < n implies #[trigger] mirrored(m)[k] == items[k] by {
        if k == 0 {
            assert((n - 0) % n == 0) by {
                vstd::arithmetic::div_mod::lemma_mod_self_0(n);
            }
        } else {
            assert((n - k) % n == n - k) by {
                vstd::arithmetic::div_mod::lemma_small_mod((n - k) as nat, n as nat);
            }
            assert((n - (n - k)) % n == k) by {
                vstd::arithmetic::div_mod::lemma_small_mod(k as nat, n as nat);
            }
        }
    }
    assert(mirrored(m) =~= items);
}

/// Rolling a cell by `a` corners and then by `b` rolls it by `a + b`, going round once the
/// corners are used up.
pub proof fn law_roll_twice(items: Seq<(i32, i32)>, a: int, b: int)
    requires
        0 <= a <= items.len(),
        0 <= b <= items.len(),
    ensures
        rolled(rolled(items, a), b) == rolled(
            items,
            if a + b <= items.len() { a + b } else { a + b - items.len() },
        ),
{
    let n = items.len() as int;
    let c = if a + b <= n { a + b } else { a + b - n };
    let r1 = rolled(items, a);
    let r2 = rolled(r1, b);
    let r = rolled(items, c);
    assert forall|j: int| 0 <= j < n implies #[trigger] r2[j] == r[j] by {
        let i1 = if j < n - b { b + j } else { b + j - n };
        assert(r2[j] == r1[i1]);
        let i0 = if i1 < n - a { a + i1 } else { a + i1 - n };
        assert(r1[i1] == items[i0]);
        let ic = if j < n - c { c + j } else { c + j - n };
        assert(r[j] == items[ic]);
        assert(i0 == ic);
    }
    assert(r2 =~= r);
}

/// Rolling a cell by all of its corners gives it back.
pub proof fn law_roll_full_turn(items: Seq<(i32, i32)>)
    ensures
        rolled(items, items.len() as int) == items,
        rolled(items, 0) == items,
{
    assert(rolled(items, items.len() as int) =~= items);
    assert(rolled(items, 0) =~= items);
}

/// The kinds of sides that occur in the cells: the entry at `s` tells whether some corner of
/// some cell is followed by a side of kind `s`; the list ends at the largest kind.
pub open spec fn lengths_shape(cells: Seq<Seq<(i32, i32)>>, r: Seq<bool>) -> bool {
    &&& forall|s: int| 0 <= s < r.len() ==> (#[trigger] r[s] <==> exists|c: int, i: int|
        0 <= c < cells.len() && 0 <= i < cells[c].len() && cells[c][i].1 == s)
    &&& forall|c: int, i: int|
        0 <= c < cells.len() && 0 <= i < cells[c].len() ==> #[trigger] cells[c][i].1 < r.len()
    &&& r.len() > 0 ==> r[r.len() - 1]
}

/// Which kinds of sides the cells use, as `lengths_shape` says.
pub fn possible_lengths(cells: &Vec<Cell>) -> (r: Vec<bool>)
    ensures
        lengths_shape(cells@.map_values(|c: Cell| c@), r@),
{
    let ghost views = cells@.map_values(|c: Cell| c@);
    let mut result: Vec<bool> = Vec::new();
    let mut ci: usize = 0;
    while ci < cells.len()
        invariant
            ci <= cells@.len(),
            views == cells@.map_values(|c: Cell| c@),
            forall|s: int| 0 <= s < result@.len() ==> (#[trigger] result@[s] <==> exists|c: int, i: int|
                0 <= c < ci && 0 <= i < views[c].len() && views[c][i].1 == s),
            forall|c: int, i: int|
                0 <= c < ci && 0 <= i < views[c].len() ==> #[trigger] views[c][i].1 < result@.len(),
            result@.len() > 0 ==> result@[result@.len() - 1],
            result@.len() <= 0x8000_0000,
        decreases cells@.len() - ci,
    {
        let cell = &cells[ci];
        proof {
            use_type_invariant(cell);
        }
        let ghost before = result@;
        let mut k: usize = 0;
        while k < cell.items.len()
            invariant
                ci < cells@.len(),
                *cell == cells@[ci as int],
                views == cells@.map_values(|c: Cell| c@),
                k <= cell.items@.len(),
                before.len() <= result@.len(),
                forall|s: int| 0 <= s < result@.len() ==> (#[trigger] result@[s] <==> (
                    (s < before.len() && before[s]) || exists|i: int| 0 <= i < k && views[ci as int][i].1 == s)),
                forall|c: int, i: int|
                    0 <= c < ci && 0 <= i < views[c].len() ==> #[trigger] views[c][i].1 < result@.len(),
                forall|i: int| 0 <= i < k ==> #[trigger] views[ci as int][i].1 < result@.len(),
                result@.len() > 0 ==> result@[result@.len() - 1],
                result@.len() <= 0x8000_0000,
                valid_corners(cell@),
            decreases cell.items@.len() - k,
        {
            assert(views[ci as int] == cell@);
            assert(cell@[k as int] == pair_of(cell.items@[k as int]));
            let s = cell.items[k].segment as usize;
            let ghost mid = result@;
            if s >= result.len() {
                while result.len() <= s
                    invariant
                        mid.len() <= result@.len() <= s + 1,
                        s < 0x8000_0000,
                        forall|j: int| 0 <= j < mid.len() ==> result@[j] == mid[j],
                        forall|j: int| mid.len() <= j < result@.len() ==> !result@[j],
                    decreases s + 1 - result@.len(),
                {
                    result.push(false);
                }
            }
            result.set(s, true);
            proof {
                assert forall|t: int| 0 <= t < result@.len() implies (#[trigger] result@[t] <==> (
                    (t < before.len() && before[t]) || exists|i: int| 0 <= i < k + 1 && views[ci as int][i].1 == t)) by {
                    if t == s {
                        assert(views[ci as int][k as int].1 == t);
                    } else if t < mid.len() {
                        assert(result@[t] == mid[t]);
                        if exists|i: int| 0 <= i < k + 1 && views[ci as int][i].1 == t {
                            let i = choose|i: int| 0 <= i < k + 1 && views[ci as int][i].1 == t;
                            assert(i < k);
                        }
                    } else {
                        assert(!result@[t]);
                        if exists|i: int| 0 <= i < k + 1 && views[ci as int][i].1 == t {
                            let i = choose|i: int| 0 <= i < k + 1 && views[ci as int][i].1 == t;
                            assert(i < k);
                            assert(views[ci as int][i].1 < mid.len());
                        }
                        if t < before.len() {
                            assert(before.len() <= mid.len());
                        }
                    }
                }
            }
            k = k + 1;
        }
        proof {
            assert forall|t: int| 0 <= t < result@.len() implies (#[trigger] result@[t] <==> exists|c: int, i: int|
                0 <= c < ci + 1 && 0 <= i < views[c].len() && views[c][i].1 == t) by {
                if result@[t] {
                    if t < before.len() && before[t] {
                        let (c, i) = choose|c: int, i: int| 0 <= c < ci && 0 <= i < views[c].len() && views[c][i].1 == t;
                        assert(0 <= c < ci + 1 && 0 <= i < views[c].len() && views[c][i].1 == t);
                    } else {
                        let i = choose|i: int| 0 <= i < cell.items@.len() && views[ci as int][i].1 == t;
                        assert(0 <= ci < ci + 1 && 0 <= i < views[ci as int].len() && views[ci as int][i].1 == t);
                    }
                } else {
                    if exists|c: int, i: int| 0 <= c < ci + 1 && 0 <= i < views[c].len() && views[c][i].1 == t {
                        let (c, i) = choose|c: int, i: int| 0 <= c < ci + 1 && 0 <= i < views[c].len() && views[c][i].1 == t;
                        if c < ci {
                            if t < before.len() {
                                assert(before[t]);
                            } else {
                                assert(views[c][i].1 < before.len());
                            }
                        } else {
                            assert(c == ci);
                            assert(exists|j: int| 0 <= j < cell.items@.len() && views[ci as int][j].1 == t);
                        }
                    }
                }
            }
        }
        ci = ci + 1;
    }
    result
}


/// Whether the cell with corners `c` fits a corner of `angle` pieces between sides of kinds
/// `segments`, its first corner against the second side: its first side is of that kind and
/// its first corner takes no more than `angle`.
pub open spec fn starts_corner(c: Seq<(i32, i32)>, segments: (i32, i32), angle: i32) -> bool {
    c[0].1 == segments.1 && c[0].0 <= angle
}

/// How many of the first `n` cells fill a corner of `angle` pieces between sides of kinds
/// `segments` on their own: they fit it, their first corner takes all of it, and their last
/// side is of the first kind.
pub open spec fn corner_fillers(cells: Seq<Cell>, segments: (i32, i32), angle: i32, n: int) -> nat
    decreases n,
{
    if n <= 0 {
        0
    } else {
        let c = cells[n - 1]@;
        let prev = corner_fillers(cells, segments, angle, n - 1);
        if starts_corner(c, segments, angle) && c[0].0 == angle && c[c.len() - 1].1 == segments.0 {
            prev + 1
        } else {
            prev
        }
    }
}

/// The smaller corners that the first `n` cells leave when they fit a corner of `angle`
/// pieces between sides of kinds `segments` without filling it: for each, in order, the
/// angle left and the kinds of the sides around it (the first kind, and the cell's last
/// side's).
pub open spec fn corners_left(cells: Seq<Cell>, segments: (i32, i32), angle: i32, n: int) -> Seq<(i32, (i32, i32))>
    decreases n,
{
    if n <= 0 {
        Seq::empty()
    } else {
        let c = cells[n - 1]@;
        let prev = corners_left(cells, segments, angle, n - 1);
        if starts_corner(c, segments, angle) && c[0].0 < angle {
            prev.push(((angle - c[0].0) as i32, (segments.0, c[c.len() - 1].1)))
        } else {
            prev
        }
    }
}

/// One step of counting the ways `cells` fill a corner of `angle` pieces between sides of
/// kinds `segments`: how many fill it on their own, and the smaller corners left by those
/// that fit it without filling it, whose counts add up with the first.
pub fn corner_partition_step(cells: &Vec<Cell>, segments: (i32, i32), angle: i32) -> (r: (usize, Vec<(i32, (i32, i32))>))
    ensures
        r.0 == corner_fillers(cells@, segments, angle, cells@.len() as int),
        r.1@ == corners_left(cells@, segments, angle, cells@.len() as int),
{
    let mut count: usize = 0;
    let mut left: Vec<(i32, (i32, i32))> = Vec::new();
    let mut i: usize = 0;
    while i < cells.len()
        invariant
            i <= cells@.len(),
            count == corner_fillers(cells@, segments, angle, i as int),
            count <= i,
            left@ == corners_left(cells@, segments, angle, i as int),
        decreases cells@.len() - i,
    {
        let c = &cells[i];
        proof {
            use_type_invariant(c);
        }
        let n = c.len();
        let (first_angle, first_segment) = c.corner(0);
        let (_, last_segment) = c.corner(n - 1);
        if first_segment == segments.1 && first_angle <= angle {
            if first_angle == angle {
                if last_segment == segments.0 {
                    count = count + 1;
                }
            } else {
                left.push((angle - first_angle, (segments.0, last_segment)));
            }
        }
        i += 1;
    }
    (count, left)
}


/// What the cell with corners `c` asks to fill a side of kind `segments.1` between corners of
/// `angles.0` and `angles.1` pieces (the sides around being of kinds `segments.0` and
/// `segments.2`), when its first side is of that kind and its first two corners fit: for each
/// of the two corners, the smaller corner left to fill (its angle and the kinds of the sides
/// around it), or none when the cell fills it exactly with matching sides. `None` when the
/// cell does not fit.
pub open spec fn side_request(c: Seq<(i32, i32)>, segments: (i32, i32, i32), angles: (i32, i32)) -> Option<(Option<(i32, (i32, i32))>, Option<(i32, (i32, i32))>)> {
    let last = c[c.len() - 1].1;
    if c[0].1 != segments.1 || c[0].0 > angles.0 || c[1].0 > angles.1 {
        None
    } else if !(c[0].0 < angles.0 || segments.0 == last) {
        None
    } else if !(c[1].0 < angles.1 || c[1].1 == segments.2) {
        None
    } else {
        let r0 = if c[0].0 < angles.0 {
            Some(((angles.0 - c[0].0) as i32, (segments.0, last)))
        } else {
            None
        };
        let r1 = if c[1].0 < angles.1 {
            Some(((angles.1 - c[1].0) as i32, (c[1].1, segments.2)))
        } else {
            None
        };
        Some((r0, r1))
    }
}

/// The requests of the first `n` cells that fit the side, in order, each with the cell's
/// index, as `side_request` says.
pub open spec fn side_requests(cells: Seq<Cell>, segments: (i32, i32, i32), angles: (i32, i32), n: int) -> Seq<(usize, Option<(i32, (i32, i32))>, Option<(i32, (i32, i32))>)>
    decreases n,
{
    if n <= 0 {
        Seq::empty()
    } else {
        let prev = side_requests(cells, segments, angles, n - 1);
        match side_request(cells[n - 1]@, segments, angles) {
            Some((r0, r1)) => prev.push(((n - 1) as usize, r0, r1)),
            None => prev,
        }
    }
}

/// The cells that may fill a side of kind `segments.1` between corners of `angles.0` and
/// `angles.1` pieces, with the smaller corners each leaves to fill, as `side_requests` says.
pub fn side_partition_step(cells: &Vec<Cell>, segments: (i32, i32, i32), angles: (i32, i32)) -> (r: Vec<(usize, Option<(i32, (i32, i32))>, Option<(i32, (i32, i32))>)>)
    ensures
        r@ == side_requests(cells@, segments, angles, cells@.len() as int),
{
    let mut out: Vec<(usize, Option<(i32, (i32, i32))>, Option<(i32, (i32, i32))>)> = Vec::new();
    let mut i: usize = 0;
    while i < cells.len()
        invariant
            i <= cells@.len(),
            out@ == side_requests(cells@, segments, angles, i as int),
        decreases cells@.len() - i,
    {
        let c = &cells[i];
        proof {
            use_type_invariant(c);
        }
        let n = c.len();
        let (first_angle, first_segment) = c.corner(0);
        let (second_angle, second_segment) = c.corner(1);
        let (_, last_segment) = c.corner(n - 1);
        if first_segment == segments.1 && first_angle <= angles.0 && second_angle <= angles.1
            && (first_angle < angles.0 || segments.0 == last_segment)
            && (second_angle < angles.1 || second_segment == segments.2) {
            let r0 = if first_angle < angles.0 {
                Some((angles.0 - first_angle, (segments.0, last_segment)))
            } else {
                None
            };
            let r1 = if second_angle < angles.1 {
                Some((angles.1 - second_angle, (second_segment, segments.2)))
            } else {
                None
            };
            out.push((i, r0, r1));
        }
        i += 1;
    }
    out
}

} // verus!
