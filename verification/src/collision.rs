//! Axis-aligned collision primitives: boxes, circles, their intersection
//! tests, and the per-axis edge alignment used by the physics resolve step.
//!
//! Intersection is strict (`<`), so degenerate zero-extent shapes are valid
//! point probes, and touching edges do not count as overlap. The circle tests
//! compare squared distances, which states the Euclidean predicate exactly
//! without a square root.
use vstd::prelude::*;

use crate::fx::{
    fx_in_range, fx_sat, iabs, spec_clamp, fx_clamp, Vec2Fx, FX_MAX,
};

verus! {

/// An axis-aligned box: center position and half-extents.
#[derive(Clone, Copy, PartialEq, Eq, Structural, Debug)]
pub struct CollBox {
    pub pos: Vec2Fx,
    pub half_dim: Vec2Fx,
}

/// A circle: center position and radius.
#[derive(Clone, Copy, PartialEq, Eq, Structural, Debug)]
pub struct CollCircle {
    pub pos: Vec2Fx,
    pub radius: i64,
}

/// The two boxes overlap on the given axis values.
pub open spec fn axis_overlap(ac: int, ah: int, bc: int, bh: int) -> bool {
    iabs(ac - bc) < ah + bh
}

/// Strict axis-aligned overlap on both axes.
pub open spec fn boxes_intersect(a: CollBox, b: CollBox) -> bool {
    axis_overlap(a.pos.x as int, a.half_dim.x as int, b.pos.x as int, b.half_dim.x as int)
        && axis_overlap(a.pos.y as int, a.half_dim.y as int, b.pos.y as int, b.half_dim.y as int)
}

/// Strict circle overlap, stated over squared distances (exactly the
/// Euclidean `|delta| < r1 + r2` for nonnegative radii).
pub open spec fn circles_intersect(a: CollCircle, b: CollCircle) -> bool {
    let dx = a.pos.x - b.pos.x;
    let dy = a.pos.y - b.pos.y;
    let s = a.radius + b.radius;
    dx * dx + dy * dy < s * s
}

/// The point of the box nearest to `p`, per axis a clamp into the extents.
pub open spec fn spec_nearest_in_box(p: Vec2Fx, b: CollBox) -> Vec2Fx {
    Vec2Fx {
        x: spec_clamp(p.x as int, b.pos.x - b.half_dim.x, b.pos.x + b.half_dim.x) as i64,
        y: spec_clamp(p.y as int, b.pos.y - b.half_dim.y, b.pos.y + b.half_dim.y) as i64,
    }
}

/// Circle-box overlap by the nearest-point method.
pub open spec fn circle_box_intersect(c: CollCircle, b: CollBox) -> bool {
    let n = spec_nearest_in_box(c.pos, b);
    let dx = c.pos.x - n.x;
    let dy = c.pos.y - n.y;
    dx * dx + dy * dy < c.radius * c.radius
}

impl CollBox {
    /// Valid box: coordinates in range, nonnegative half-extents.
    pub open spec fn wf(self) -> bool {
        self.pos.wf() && self.half_dim.wf() && self.half_dim.x >= 0 && self.half_dim.y >= 0
    }

    pub fn new(pos: Vec2Fx, half_dim: Vec2Fx) -> (r: CollBox)
        ensures
            r.pos == pos,
            r.half_dim == half_dim,
    {
        CollBox { pos, half_dim }
    }

    /// Build a box from scalar coordinates.
    pub fn from_coords(pos_x: i64, pos_y: i64, half_width: i64, half_height: i64) -> (r: CollBox)
        ensures
            r.pos.x == pos_x,
            r.pos.y == pos_y,
            r.half_dim.x == half_width,
            r.half_dim.y == half_height,
    {
        CollBox { pos: Vec2Fx { x: pos_x, y: pos_y }, half_dim: Vec2Fx { x: half_width, y: half_height } }
    }

    pub fn check_intersection(&self, other: &CollBox) -> (r: bool)
        requires
            self.wf(),
            other.wf(),
        ensures
            r == boxes_intersect(*self, *other),
    {
        let dx = self.pos.x - other.pos.x;
        let dy = self.pos.y - other.pos.y;
        let dax = if dx < 0 { -dx } else { dx };
        let day = if dy < 0 { -dy } else { dy };
        dax < self.half_dim.x + other.half_dim.x && day < self.half_dim.y + other.half_dim.y
    }

    /// True when the box overlaps any box of the slice.
    pub fn check_intersection_slice(&self, others: &[CollBox]) -> (r: bool)
        requires
            self.wf(),
            forall|i: int| 0 <= i < others@.len() ==> others@[i].wf(),
        ensures
            r == exists|i: int| 0 <= i < others@.len() && boxes_intersect(*self, others@[i]),
    {
        let mut i: usize = 0;
        while i < others.len()
            invariant
                0 <= i <= others@.len(),
                self.wf(),
                forall|k: int| 0 <= k < others@.len() ==> others@[k].wf(),
                forall|k: int| 0 <= k < i ==> !boxes_intersect(*self, others@[k]),
            decreases others@.len() - i,
        {
            if self.check_intersection(&others[i]) {
                return true;
            }
            i += 1;
        }
        false
    }

    pub fn to_circle(&self) -> (r: CollCircle)
        requires
            self.wf(),
        ensures
            r.pos == self.pos,
            r.radius as int == (self.half_dim.x + self.half_dim.y) / 2,
            r.wf(),
    {
        let s: u64 = (self.half_dim.x + self.half_dim.y) as u64;
        CollCircle { pos: self.pos, radius: (s / 2) as i64 }
    }

    pub fn align_edge_x(&mut self, other: &CollBox)
        requires
            old(self).wf(),
            other.wf(),
        ensures
            *final(self) == spec_align_x(*old(self), *other),
            final(self).wf(),
    {
        let sum = self.half_dim.x + other.half_dim.x;
        let d = other.pos.x - self.pos.x;
        let raw: i64 = if d >= 0 {
            other.pos.x - sum
        } else {
            other.pos.x + sum
        };
        let nx: i64 = if raw > FX_MAX {
            FX_MAX
        } else if raw < -FX_MAX {
            -FX_MAX
        } else {
            raw
        };
        self.pos.x = nx;
    }

    pub fn align_edge_y(&mut self, other: &CollBox)
        requires
            old(self).wf(),
            other.wf(),
        ensures
            *final(self) == spec_align_y(*old(self), *other),
            final(self).wf(),
    {
        let sum = self.half_dim.y + other.half_dim.y;
        let d = other.pos.y - self.pos.y;
        let raw: i64 = if d >= 0 {
            other.pos.y - sum
        } else {
            other.pos.y + sum
        };
        let ny: i64 = if raw > FX_MAX {
            FX_MAX
        } else if raw < -FX_MAX {
            -FX_MAX
        } else {
            raw
        };
        self.pos.y = ny;
    }

    pub fn collide_x(&mut self, other: &CollBox) -> (r: bool)
        requires
            old(self).wf(),
            other.wf(),
        ensures
            r == boxes_intersect(*old(self), *other),
            *final(self) == (if r {
                spec_align_x(*old(self), *other)
            } else {
                *old(self)
            }),
            final(self).wf(),
    {
        if self.check_intersection(other) {
            self.align_edge_x(other);
            true
        } else {
            false
        }
    }

    pub fn collide_y(&mut self, other: &CollBox) -> (r: bool)
        requires
            old(self).wf(),
            other.wf(),
        ensures
            r == boxes_intersect(*old(self), *other),
            *final(self) == (if r {
                spec_align_y(*old(self), *other)
            } else {
                *old(self)
            }),
            final(self).wf(),
    {
        if self.check_intersection(other) {
            self.align_edge_y(other);
            true
        } else {
            false
        }
    }

    pub fn collide_x_slice(&mut self, other: &[CollBox]) -> (r: bool)
        requires
            old(self).wf(),
            forall|i: int| 0 <= i < other@.len() ==> other@[i].wf(),
        ensures
            (*final(self), r) == spec_collide_fold(*old(self), other@, true),
            final(self).wf(),
    {
        let mut res = false;
        let mut i: usize = 0;
        proof {
            lemma_collide_fold_from_zero(*self, other@, true);
        }
        while i < other.len()
            invariant
                0 <= i <= other@.len(),
                self.wf(),
                forall|k: int| 0 <= k < other@.len() ==> other@[k].wf(),
                spec_collide_fold(*old(self), other@, true) == spec_collide_fold_from(
                    *self,
                    other@,
                    i as int,
                    res,
                    true,
                ),
            decreases other@.len() - i,
        {
            let ghost prev = *self;
            let ghost prev_res = res;
            let ghost prev_i = i as int;
            let hit = self.collide_x(&other[i]);
            res = hit || res;
            i += 1;
            proof {
                assert(spec_collide_fold_from(prev, other@, prev_i, prev_res, true)
                    == spec_collide_fold_from(*self, other@, i as int, res, true));
            }
        }
        res
    }

    pub fn collide_y_slice(&mut self, other: &[CollBox]) -> (r: bool)
        requires
            old(self).wf(),
            forall|i: int| 0 <= i < other@.len() ==> other@[i].wf(),
        ensures
            (*final(self), r) == spec_collide_fold(*old(self), other@, false),
            final(self).wf(),
    {
        let mut res = false;
        let mut i: usize = 0;
        proof {
            lemma_collide_fold_from_zero(*self, other@, false);
        }
        while i < other.len()
            invariant
                0 <= i <= other@.len(),
                self.wf(),
                forall|k: int| 0 <= k < other@.len() ==> other@[k].wf(),
                spec_collide_fold(*old(self), other@, false) == spec_collide_fold_from(
                    *self,
                    other@,
                    i as int,
                    res,
                    false,
                ),
            decreases other@.len() - i,
        {
            let ghost prev = *self;
            let ghost prev_res = res;
            let ghost prev_i = i as int;
            let hit = self.collide_y(&other[i]);
            res = hit || res;
            i += 1;
            proof {
                assert(spec_collide_fold_from(prev, other@, prev_i, prev_res, false)
                    == spec_collide_fold_from(*self, other@, i as int, res, false));
            }
        }
        res
    }
}

/// Reposition `a` on the x axis flush against `b`'s edge; the side is chosen
/// by the sign of the center delta, resolving toward negative on a tie.
pub open spec fn spec_align_x(a: CollBox, b: CollBox) -> CollBox {
    let sum = a.half_dim.x + b.half_dim.x;
    let raw = if b.pos.x - a.pos.x >= 0 {
        b.pos.x - sum
    } else {
        b.pos.x + sum
    };
    CollBox {
        pos: Vec2Fx { x: fx_sat(raw) as i64, y: a.pos.y },
        half_dim: a.half_dim,
    }
}

/// Reposition `a` on the y axis flush against `b`'s edge.
pub open spec fn spec_align_y(a: CollBox, b: CollBox) -> CollBox {
    let sum = a.half_dim.y + b.half_dim.y;
    let raw = if b.pos.y - a.pos.y >= 0 {
        b.pos.y - sum
    } else {
        b.pos.y + sum
    };
    CollBox {
        pos: Vec2Fx { x: a.pos.x, y: fx_sat(raw) as i64 },
        half_dim: a.half_dim,
    }
}

/// Sequential align-and-resolve against a list of boxes, in list order:
/// the result of `collide_x_slice` / `collide_y_slice`.
pub open spec fn spec_collide_fold(b: CollBox, walls: Seq<CollBox>, x_axis: bool) -> (CollBox, bool)
    decreases walls.len(),
{
    if walls.len() == 0 {
        (b, false)
    } else {
        let w = walls[0];
        let hit = boxes_intersect(b, w);
        let b2 = if hit {
            if x_axis {
                spec_align_x(b, w)
            } else {
                spec_align_y(b, w)
            }
        } else {
            b
        };
        let (bf, any) = spec_collide_fold(b2, walls.drop_first(), x_axis);
        (bf, any || hit)
    }
}

/// The fold restarted at position `i` with accumulator `acc`.
pub open spec fn spec_collide_fold_from(
    b: CollBox,
    walls: Seq<CollBox>,
    i: int,
    acc: bool,
    x_axis: bool,
) -> (CollBox, bool)
    decreases walls.len() - i,
{
    if i < 0 || i >= walls.len() {
        (b, acc)
    } else {
        let w = walls[i];
        let hit = boxes_intersect(b, w);
        let b2 = if hit {
            if x_axis {
                spec_align_x(b, w)
            } else {
                spec_align_y(b, w)
            }
        } else {
            b
        };
        spec_collide_fold_from(b2, walls, i + 1, acc || hit, x_axis)
    }
}

/// The two formulations of the fold agree.
pub proof fn lemma_collide_fold_from_zero(b: CollBox, walls: Seq<CollBox>, x_axis: bool)
    ensures
        spec_collide_fold(b, walls, x_axis) == spec_collide_fold_from(b, walls, 0, false, x_axis),
    decreases walls.len(),
{
    lemma_collide_fold_shift(b, walls, 0, false, x_axis);
    assert(walls.skip(0) =~= walls);
}

proof fn lemma_collide_fold_shift(b: CollBox, walls: Seq<CollBox>, i: int, acc: bool, x_axis: bool)
    requires
        0 <= i <= walls.len(),
    ensures
        spec_collide_fold_from(b, walls, i, acc, x_axis) == {
            let (bf, any) = spec_collide_fold(b, walls.skip(i), x_axis);
            (bf, acc || any)
        },
    decreases walls.len() - i,
{
    if i < walls.len() {
        let w = walls[i];
        let hit = boxes_intersect(b, w);
        let b2 = if hit {
            if x_axis {
                spec_align_x(b, w)
            } else {
                spec_align_y(b, w)
            }
        } else {
            b
        };
        lemma_collide_fold_shift(b2, walls, i + 1, acc || hit, x_axis);
        assert(walls.skip(i).drop_first() =~= walls.skip(i + 1));
        assert(walls.skip(i)[0] == w);
    } else {
        assert(walls.skip(i).len() == 0);
    }
}

impl CollCircle {
    /// Valid circle: coordinates in range, nonnegative radius.
    pub open spec fn wf(self) -> bool {
        self.pos.wf() && 0 <= self.radius <= FX_MAX
    }

    pub fn new(pos: Vec2Fx, radius: i64) -> (r: CollCircle)
        ensures
            r.pos == pos,
            r.radius == radius,
    {
        CollCircle { pos, radius }
    }

    pub fn check_intersection(&self, other: &CollCircle) -> (r: bool)
        requires
            self.wf(),
            other.wf(),
        ensures
            r == circles_intersect(*self, *other),
    {
        let dx = self.pos.x - other.pos.x;
        let dy = self.pos.y - other.pos.y;
        let s = self.radius + other.radius;
        sq_dist_less(dx, dy, s)
    }

    pub fn to_box(&self) -> (r: CollBox)
        requires
            self.wf(),
        ensures
            r.pos == self.pos,
            r.half_dim.x == self.radius,
            r.half_dim.y == self.radius,
            r.wf(),
    {
        CollBox { pos: self.pos, half_dim: Vec2Fx { x: self.radius, y: self.radius } }
    }
}

/// Circle-box test: clamp the circle center into the box extents and compare
/// the squared distance to the nearest point with the squared radius.
pub fn check_circle_box_intersection(circle: &CollCircle, cbox: &CollBox) -> (r: bool)
    requires
        circle.wf(),
        cbox.wf(),
    ensures
        r == circle_box_intersect(*circle, *cbox),
{
    let nx = fx_clamp(circle.pos.x, cbox.pos.x - cbox.half_dim.x, cbox.pos.x + cbox.half_dim.x);
    let ny = fx_clamp(circle.pos.y, cbox.pos.y - cbox.half_dim.y, cbox.pos.y + cbox.half_dim.y);
    let dx = circle.pos.x - nx;
    let dy = circle.pos.y - ny;
    sq_dist_less(dx, dy, circle.radius)
}

/// Whether `dx*dx + dy*dy < s*s`, computed without overflow.
fn sq_dist_less(dx: i64, dy: i64, s: i64) -> (r: bool)
    requires
        -3_000_000_000 <= dx as int <= 3_000_000_000,
        -3_000_000_000 <= dy as int <= 3_000_000_000,
        0 <= s as int <= 2_000_000_000,
    ensures
        r == ((dx as int * dx as int + dy as int * dy as int) < s as int * s as int),
{
    let dxm: u64 = if dx < 0 {
        (-dx) as u64
    } else {
        dx as u64
    };
    let dym: u64 = if dy < 0 {
        (-dy) as u64
    } else {
        dy as u64
    };
    proof {
        assert(dxm as int * dxm as int == dx as int * dx as int
            && dym as int * dym as int == dy as int * dy as int
            && dxm as int * dxm as int <= 3_000_000_000 * 3_000_000_000
            && dym as int * dym as int <= 3_000_000_000 * 3_000_000_000
            && 0 <= (s as int) * (s as int) <= 2_000_000_000 * 2_000_000_000) by (nonlinear_arith)
            requires
                dxm as int == (if (dx as int) >= 0 { dx as int } else { -(dx as int) }),
                dym as int == (if (dy as int) >= 0 { dy as int } else { -(dy as int) }),
                -3_000_000_000 <= dx as int <= 3_000_000_000,
                -3_000_000_000 <= dy as int <= 3_000_000_000,
                0 <= s as int <= 2_000_000_000,
        ;
    }
    dxm * dxm + dym * dym < (s as u64) * (s as u64)
}

/// Box intersection is symmetric.
pub proof fn lemma_boxes_intersect_symmetric(a: CollBox, b: CollBox)
    ensures
        boxes_intersect(a, b) == boxes_intersect(b, a),
{
}

/// Circle intersection is symmetric.
pub proof fn lemma_circles_intersect_symmetric(a: CollCircle, b: CollCircle)
    ensures
        circles_intersect(a, b) == circles_intersect(b, a),
{
    let dx = a.pos.x - b.pos.x;
    let ex = b.pos.x - a.pos.x;
    let dy = a.pos.y - b.pos.y;
    let ey = b.pos.y - a.pos.y;
    assert(dx * dx == ex * ex && dy * dy == ey * ey) by (nonlinear_arith)
        requires
            ex == -dx,
            ey == -dy,
    ;
}

/// Aligning on the x axis separates the boxes on x and leaves the y axis
/// untouched: after `spec_align_x` the x overlap is gone while the y overlap
/// is exactly what it was. Holds whenever the aligned position stays inside
/// the working range (no saturation).
pub proof fn lemma_align_x_separates(a: CollBox, b: CollBox)
    requires
        a.wf(),
        b.wf(),
        boxes_intersect(a, b),
        iabs(b.pos.x as int) + a.half_dim.x + b.half_dim.x <= FX_MAX as int,
    ensures
        !axis_overlap(
            spec_align_x(a, b).pos.x as int,
            a.half_dim.x as int,
            b.pos.x as int,
            b.half_dim.x as int,
        ),
        axis_overlap(
            spec_align_x(a, b).pos.y as int,
            a.half_dim.y as int,
            b.pos.y as int,
            b.half_dim.y as int,
        ) == axis_overlap(a.pos.y as int, a.half_dim.y as int, b.pos.y as int, b.half_dim.y as int),
        spec_align_x(a, b).half_dim == a.half_dim,
{
    let sum = a.half_dim.x + b.half_dim.x;
    let raw = if b.pos.x - a.pos.x >= 0 {
        b.pos.x - sum
    } else {
        b.pos.x + sum
    };
    assert(fx_sat(raw as int) == raw as int);
}

/// The same, for the y axis.
pub proof fn lemma_align_y_separates(a: CollBox, b: CollBox)
    requires
        a.wf(),
        b.wf(),
        boxes_intersect(a, b),
        iabs(b.pos.y as int) + a.half_dim.y + b.half_dim.y <= FX_MAX as int,
    ensures
        !axis_overlap(
            spec_align_y(a, b).pos.y as int,
            a.half_dim.y as int,
            b.pos.y as int,
            b.half_dim.y as int,
        ),
        axis_overlap(
            spec_align_y(a, b).pos.x as int,
            a.half_dim.x as int,
            b.pos.x as int,
            b.half_dim.x as int,
        ) == axis_overlap(a.pos.x as int, a.half_dim.x as int, b.pos.x as int, b.half_dim.x as int),
        spec_align_y(a, b).half_dim == a.half_dim,
{
    let sum = a.half_dim.y + b.half_dim.y;
    let raw = if b.pos.y - a.pos.y >= 0 {
        b.pos.y - sum
    } else {
        b.pos.y + sum
    };
    assert(fx_sat(raw as int) == raw as int);
}


/// A sector: a coarse filter box plus the member boxes bucketed into it.
pub struct MultiCollider {
    pub main: CollBox,
    pub multi: Vec<CollBox>,
}

/// The query box overlaps the sector's filter and at least one member.
pub open spec fn spec_sector_hit(s: MultiCollider, q: CollBox) -> bool {
    boxes_intersect(q, s.main) && exists|j: int|
        0 <= j < s.members().len() && boxes_intersect(q, s.members()[j])
}

/// The query box hits some sector of the grid.
pub open spec fn spec_grid_hit(grid: Seq<MultiCollider>, q: CollBox) -> bool {
    exists|k: int| 0 <= k < grid.len() && spec_sector_hit(grid[k], q)
}

/// Brute-force reference query: the box overlaps some wall of the flat set.
pub open spec fn spec_any_wall_hit(walls: Seq<CollBox>, q: CollBox) -> bool {
    exists|i: int| 0 <= i < walls.len() && boxes_intersect(q, walls[i])
}

/// The grid with its empty sectors removed, in order.
pub open spec fn spec_cull(grid: Seq<MultiCollider>) -> Seq<MultiCollider>
    decreases grid.len(),
{
    if grid.len() == 0 {
        Seq::empty()
    } else {
        let rest = spec_cull(grid.drop_first());
        if grid[0].members().len() > 0 {
            seq![grid[0]] + rest
        } else {
            rest
        }
    }
}

/// Sequential resolve against the sectors of a grid, in grid order, gated
/// per sector by the filter test; once some sector has reported a collision
/// the remaining sectors are not resolved against (mirroring the
/// short-circuit of the resolve pass).
pub open spec fn spec_mc_collide_fold(
    b: CollBox,
    sectors: Seq<MultiCollider>,
    i: int,
    acc: bool,
    x_axis: bool,
) -> (CollBox, bool)
    decreases sectors.len() - i,
{
    if i < 0 || i >= sectors.len() {
        (b, acc)
    } else if acc {
        (b, true)
    } else {
        let s = sectors[i];
        let (b2, r) = if boxes_intersect(b, s.main) {
            spec_collide_fold(b, s.members(), x_axis)
        } else {
            (b, false)
        };
        spec_mc_collide_fold(b2, sectors, i + 1, r, x_axis)
    }
}

impl MultiCollider {
    /// The member boxes of the sector, in insertion order.
    pub open spec fn members(self) -> Seq<CollBox> {
        self.multi@
    }

    /// Valid sector: filter and all members are valid boxes.
    pub open spec fn wf(self) -> bool {
        self.main.wf() && forall|j: int| 0 <= j < self.members().len() ==> self.members()[j].wf()
    }

    pub fn new(filter_coll: CollBox) -> (r: MultiCollider)
        ensures
            r.main == filter_coll,
            r.members() == Seq::<CollBox>::empty(),
    {
        MultiCollider { main: filter_coll, multi: Vec::new() }
    }

    pub fn check_intersection(&self, other: &CollBox) -> (r: bool)
        requires
            self.wf(),
            other.wf(),
        ensures
            r == spec_sector_hit(*self, *other),
    {
        if !other.check_intersection(&self.main) {
            return false;
        }
        let mut i: usize = 0;
        while i < self.multi.len()
            invariant
                0 <= i <= self.members().len(),
                self.wf(),
                other.wf(),
                boxes_intersect(*other, self.main),
                forall|j: int| 0 <= j < i ==> !boxes_intersect(*other, self.members()[j]),
            decreases self.members().len() - i,
        {
            if other.check_intersection(&self.multi[i]) {
                proof {
                    assert(boxes_intersect(*other, self.members()[i as int]));
                }
                return true;
            }
            i += 1;
        }
        false
    }

    /// True when the box hits any sector of the grid.
    pub fn check_intersection_slice(coll: &[MultiCollider], other: &CollBox) -> (r: bool)
        requires
            forall|k: int| 0 <= k < coll@.len() ==> coll@[k].wf(),
            other.wf(),
        ensures
            r == spec_grid_hit(coll@, *other),
    {
        let mut k: usize = 0;
        while k < coll.len()
            invariant
                0 <= k <= coll@.len(),
                forall|m: int| 0 <= m < coll@.len() ==> coll@[m].wf(),
                other.wf(),
                forall|m: int| 0 <= m < k ==> !spec_sector_hit(coll@[m], *other),
            decreases coll@.len() - k,
        {
            if coll[k].check_intersection(other) {
                return true;
            }
            k += 1;
        }
        false
    }

    /// Append the box to this sector when it overlaps the filter.
    pub fn add_if_intersect(&mut self, coll: &CollBox)
        requires
            old(self).wf(),
            coll.wf(),
        ensures
            final(self).main == old(self).main,
            final(self).members() == (if boxes_intersect(old(self).main, *coll) {
                old(self).members().push(*coll)
            } else {
                old(self).members()
            }),
            final(self).wf(),
    {
        if self.main.check_intersection(coll) {
            self.multi.push(*coll);
        }
    }

    pub fn read_multi(&self) -> (r: &Vec<CollBox>)
        ensures
            r@ == self.members(),
    {
        &self.multi
    }

    pub fn clear(&mut self)
        ensures
            final(self).main == old(self).main,
            final(self).members() == Seq::<CollBox>::empty(),
    {
        self.multi.clear();
    }

    /// Bucket the box into every sector of the grid whose filter it overlaps.
    pub fn add_if_intersect_slice(mc: &mut Vec<MultiCollider>, coll: &CollBox)
        requires
            forall|k: int| 0 <= k < old(mc)@.len() ==> old(mc)@[k].wf(),
            coll.wf(),
        ensures
            final(mc)@.len() == old(mc)@.len(),
            forall|k: int| 0 <= k < old(mc)@.len() ==> {
                &&& final(mc)@[k].main == old(mc)@[k].main
                &&& final(mc)@[k].members() == (if boxes_intersect(old(mc)@[k].main, *coll) {
                    old(mc)@[k].members().push(*coll)
                } else {
                    old(mc)@[k].members()
                })
                &&& final(mc)@[k].wf()
            },
    {
        let mut k: usize = 0;
        while k < mc.len()
            invariant
                0 <= k <= mc@.len(),
                mc@.len() == old(mc)@.len(),
                coll.wf(),
                forall|m: int| k <= m < mc@.len() ==> mc@[m] == old(mc)@[m],
                forall|m: int| k <= m < mc@.len() ==> mc@[m].wf(),
                forall|m: int| 0 <= m < k ==> {
                    &&& mc@[m].main == old(mc)@[m].main
                    &&& mc@[m].members() == (if boxes_intersect(old(mc)@[m].main, *coll) {
                        old(mc)@[m].members().push(*coll)
                    } else {
                        old(mc)@[m].members()
                    })
                    &&& mc@[m].wf()
                },
            decreases mc@.len() - k,
        {
            let sector = &mut mc[k];
            sector.add_if_intersect(coll);
            k += 1;
        }
    }

    /// Resolve the box on the x axis against this sector's members, if the
    /// filter admits it.
    pub fn collide_x(&self, other: &mut CollBox) -> (r: bool)
        requires
            self.wf(),
            old(other).wf(),
        ensures
            (*final(other), r) == (if boxes_intersect(*old(other), self.main) {
                spec_collide_fold(*old(other), self.members(), true)
            } else {
                (*old(other), false)
            }),
            final(other).wf(),
    {
        if !other.check_intersection(&self.main) {
            return false;
        }
        proof {
            assert forall|j: int| 0 <= j < self.multi@.len() implies self.multi@[j].wf() by {
                assert(self.members()[j].wf());
            };
        }
        other.collide_x_slice(self.multi.as_slice())
    }

    /// Resolve the box on the y axis against this sector's members.
    pub fn collide_y(&self, other: &mut CollBox) -> (r: bool)
        requires
            self.wf(),
            old(other).wf(),
        ensures
            (*final(other), r) == (if boxes_intersect(*old(other), self.main) {
                spec_collide_fold(*old(other), self.members(), false)
            } else {
                (*old(other), false)
            }),
            final(other).wf(),
    {
        if !other.check_intersection(&self.main) {
            return false;
        }
        proof {
            assert forall|j: int| 0 <= j < self.multi@.len() implies self.multi@[j].wf() by {
                assert(self.members()[j].wf());
            };
        }
        other.collide_y_slice(self.multi.as_slice())
    }

    pub fn collide_x_slice(coll: &mut CollBox, ss: &[MultiCollider]) -> (r: bool)
        requires
            old(coll).wf(),
            forall|k: int| 0 <= k < ss@.len() ==> ss@[k].wf(),
        ensures
            (*final(coll), r) == spec_mc_collide_fold(*old(coll), ss@, 0, false, true),
            final(coll).wf(),
    {
        let mut result = false;
        let mut k: usize = 0;
        while k < ss.len()
            invariant
                0 <= k <= ss@.len(),
                coll.wf(),
                forall|m: int| 0 <= m < ss@.len() ==> ss@[m].wf(),
                spec_mc_collide_fold(*old(coll), ss@, 0, false, true) == spec_mc_collide_fold(
                    *coll,
                    ss@,
                    k as int,
                    result,
                    true,
                ),
            decreases ss@.len() - k,
        {
            let ghost prev = *coll;
            let ghost prev_res = result;
            let ghost prev_k = k as int;
            if !result {
                result = ss[k].collide_x(coll);
            }
            k += 1;
            proof {
                assert(spec_mc_collide_fold(prev, ss@, prev_k, prev_res, true)
                    == spec_mc_collide_fold(*coll, ss@, k as int, result, true));
            }
        }
        result
    }

    pub fn collide_y_slice(coll: &mut CollBox, ss: &[MultiCollider]) -> (r: bool)
        requires
            old(coll).wf(),
            forall|k: int| 0 <= k < ss@.len() ==> ss@[k].wf(),
        ensures
            (*final(coll), r) == spec_mc_collide_fold(*old(coll), ss@, 0, false, false),
            final(coll).wf(),
    {
        let mut result = false;
        let mut k: usize = 0;
        while k < ss.len()
            invariant
                0 <= k <= ss@.len(),
                coll.wf(),
                forall|m: int| 0 <= m < ss@.len() ==> ss@[m].wf(),
                spec_mc_collide_fold(*old(coll), ss@, 0, false, false) == spec_mc_collide_fold(
                    *coll,
                    ss@,
                    k as int,
                    result,
                    false,
                ),
            decreases ss@.len() - k,
        {
            let ghost prev = *coll;
            let ghost prev_res = result;
            let ghost prev_k = k as int;
            if !result {
                result = ss[k].collide_y(coll);
            }
            k += 1;
            proof {
                assert(spec_mc_collide_fold(prev, ss@, prev_k, prev_res, false)
                    == spec_mc_collide_fold(*coll, ss@, k as int, result, false));
            }
        }
        result
    }
}

/// Remove the sectors that have no members, keeping the rest in order.
pub fn cull_sectors(mc: &mut Vec<MultiCollider>)
    ensures
        final(mc)@ == spec_cull(old(mc)@),
{
    let ghost orig = old(mc)@;
    let mut i: usize = mc.len();
    while i > 0
        invariant
            0 <= i <= orig.len(),
            mc@ =~= orig.take(i as int) + spec_cull(orig.skip(i as int)),
        decreases i,
    {
        i -= 1;
        proof {
            assert(orig.skip(i as int).drop_first() =~= orig.skip(i as int + 1));
            assert(orig.skip(i as int)[0] == orig[i as int]);
            assert(orig.take(i as int + 1) =~= orig.take(i as int) + seq![orig[i as int]]);
        }
        if mc[i].read_multi().len() == 0 {
            mc.remove(i);
        }
        proof {
            assert(mc@ =~= orig.take(i as int) + spec_cull(orig.skip(i as int)));
        }
    }
    proof {
        assert(orig.skip(0) =~= orig);
        assert(mc@ =~= spec_cull(orig));
    }
}

/// The main box of the sector at cell `(jx, jy)` of a regular tiling.
pub open spec fn cell_main(ox: int, oy: int, hx: int, hy: int, jx: int, jy: int) -> CollBox {
    CollBox {
        pos: Vec2Fx { x: (ox + jx * (2 * hx) + hx) as i64, y: (oy + jy * (2 * hy) + hy) as i64 },
        half_dim: Vec2Fx { x: hx as i64, y: hy as i64 },
    }
}

/// The filter boxes of the grid are the cells of a regular tiling: sector
/// `ix * ny + iy` covers the cell at `(ix, iy)` with half-extents
/// `(hx, hy)`.
pub open spec fn grid_mains(
    grid: Seq<MultiCollider>,
    ox: int,
    oy: int,
    hx: int,
    hy: int,
    nx: int,
    ny: int,
) -> bool {
    grid.len() == nx * ny && forall|ix: int, iy: int|
        0 <= ix < nx && 0 <= iy < ny ==> (#[trigger] grid[ix * ny + iy]).main == cell_main(
            ox,
            oy,
            hx,
            hy,
            ix,
            iy,
        )
}

/// Build one empty sector per grid cell, covering the rectangle that starts
/// at `offset` with `nx` by `ny` cells of size `size`.
/// The flat index of cell `(jx, jy)` is in bounds.
proof fn lemma_cell_index_lt(jx: int, jy: int, gx: int, ny: int)
    requires
        0 <= jx,
        jx < gx,
        0 <= jy,
        jy < ny,
    ensures
        0 <= jx * ny + jy,
        jx * ny + jy < gx * ny,
{
    assert(0 <= jx * ny + jy && jx * ny + jy < gx * ny) by (nonlinear_arith)
        requires
            0 <= jx,
            jx < gx,
            0 <= jy,
            jy < ny,
    ;
}

/// Build one empty sector per grid cell, covering the rectangle that starts
/// at `offset` with `nx` by `ny` cells of size `size`.
pub fn generate_multi_col_grid(offset: Vec2Fx, size: Vec2Fx, nx: u32, ny: u32) -> (r: Vec<
    MultiCollider,
>)
    requires
        1 <= nx <= 1000,
        1 <= ny <= 1000,
        2 <= size.x <= 1_000_000,
        2 <= size.y <= 1_000_000,
        size.x % 2 == 0,
        size.y % 2 == 0,
        fx_in_range(offset.x as int),
        fx_in_range(offset.y as int),
        fx_in_range(offset.x + nx as int * size.x),
        fx_in_range(offset.y + ny as int * size.y),
    ensures
        grid_mains(
            r@,
            offset.x as int,
            offset.y as int,
            size.x as int / 2,
            size.y as int / 2,
            nx as int,
            ny as int,
        ),
        forall|k: int| 0 <= k < r@.len() ==> (#[trigger] r@[k]).members() == Seq::<CollBox>::empty(),
        forall|k: int| 0 <= k < r@.len() ==> (#[trigger] r@[k]).wf(),
{
    let hx: i64 = size.x / 2;
    let hy: i64 = size.y / 2;
    let ghost ox = offset.x as int;
    let ghost oy = offset.y as int;
    let mut result: Vec<MultiCollider> = Vec::new();
    let mut ix: u32 = 0;
    while ix < nx
        invariant
            0 <= ix <= nx,
            1 <= nx <= 1000,
            1 <= ny <= 1000,
            2 <= size.x <= 1_000_000,
            2 <= size.y <= 1_000_000,
            size.x % 2 == 0,
            size.y % 2 == 0,
            hx == size.x / 2,
            hy == size.y / 2,
            ox == offset.x as int,
            oy == offset.y as int,
            fx_in_range(offset.x as int),
            fx_in_range(offset.y as int),
            fx_in_range(offset.x + nx as int * size.x),
            fx_in_range(offset.y + ny as int * size.y),
            result@.len() == ix as int * ny as int,
            forall|jx: int, jy: int|
                0 <= jx < ix && 0 <= jy < ny ==> #[trigger] result@[jx * ny as int + jy]
                    == (MultiCollider {
                    main: cell_main(ox, oy, hx as int, hy as int, jx, jy),
                    multi: result@[jx * ny as int + jy].multi,
                }),
            forall|k: int| 0 <= k < result@.len() ==> (#[trigger] result@[k]).members()
                == Seq::<CollBox>::empty(),
            forall|k: int| 0 <= k < result@.len() ==> (#[trigger] result@[k]).wf(),
        decreases nx - ix,
    {
        let ghost col_start = result@.len() as int;
        let mut iy: u32 = 0;
        while iy < ny
            invariant
                0 <= ix < nx,
                0 <= iy <= ny,
                1 <= nx <= 1000,
                1 <= ny <= 1000,
                2 <= size.x <= 1_000_000,
                2 <= size.y <= 1_000_000,
                size.x % 2 == 0,
                size.y % 2 == 0,
                hx == size.x / 2,
                hy == size.y / 2,
                ox == offset.x as int,
                oy == offset.y as int,
                fx_in_range(offset.x as int),
                fx_in_range(offset.y as int),
                fx_in_range(offset.x + nx as int * size.x),
                fx_in_range(offset.y + ny as int * size.y),
                col_start == ix as int * ny as int,
                result@.len() == col_start + iy as int,
                forall|jx: int, jy: int|
                    0 <= jx < ix && 0 <= jy < ny ==> #[trigger] result@[jx * ny as int + jy]
                        == (MultiCollider {
                        main: cell_main(ox, oy, hx as int, hy as int, jx, jy),
                        multi: result@[jx * ny as int + jy].multi,
                    }),
                forall|jy: int|
                    0 <= jy < iy ==> #[trigger] result@[col_start + jy] == (MultiCollider {
                        main: cell_main(ox, oy, hx as int, hy as int, ix as int, jy),
                        multi: result@[col_start + jy].multi,
                    }),
                forall|k: int| 0 <= k < result@.len() ==> (#[trigger] result@[k]).members()
                    == Seq::<CollBox>::empty(),
                forall|k: int| 0 <= k < result@.len() ==> (#[trigger] result@[k]).wf(),
            decreases ny - iy,
        {
            proof {
                assert(0 <= size.x as int * ix as int
                    && size.x as int * ix as int <= (nx as int - 1) * size.x as int
                    && 0 <= size.y as int * iy as int
                    && size.y as int * iy as int <= (ny as int - 1) * size.y as int
                    && (nx as int - 1) * size.x as int + size.x as int == nx as int * size.x as int
                    && (ny as int - 1) * size.y as int + size.y as int == ny as int * size.y as int)
                    by (nonlinear_arith)
                    requires
                        0 <= ix as int && (ix as int) < nx as int <= 1000,
                        0 <= iy as int && (iy as int) < ny as int <= 1000,
                        2 <= size.x as int <= 1_000_000,
                        2 <= size.y as int <= 1_000_000,
                ;
            }
            let px: i64 = offset.x + size.x * (ix as i64) + hx;
            let py: i64 = offset.y + size.y * (iy as i64) + hy;
            let cell = CollBox { pos: Vec2Fx { x: px, y: py }, half_dim: Vec2Fx { x: hx, y: hy } };
            proof {
                assert(px as int == ox + ix as int * (2 * hx as int) + hx
                    && py as int == oy + iy as int * (2 * hy as int) + hy) by (nonlinear_arith)
                    requires
                        px as int == ox + size.x as int * ix as int + hx,
                        py as int == oy + size.y as int * iy as int + hy,
                        size.x as int == 2 * hx as int,
                        size.y as int == 2 * hy as int,
                ;
            }
            result.push(MultiCollider { main: cell, multi: Vec::new() });
            iy += 1;
            proof {
                assert forall|jx: int, jy: int|
                    0 <= jx < ix && 0 <= jy < ny implies #[trigger] result@[jx * ny as int + jy]
                        == (MultiCollider {
                        main: cell_main(ox, oy, hx as int, hy as int, jx, jy),
                        multi: result@[jx * ny as int + jy].multi,
                    }) by {
                    lemma_cell_index_lt(jx, jy, ix as int, ny as int);
                };
            }
        }
        ix += 1;
        proof {
            assert((ix as int - 1) * ny as int + ny as int == ix as int * ny as int)
                by (nonlinear_arith);
            assert forall|jx: int, jy: int|
                0 <= jx < ix && 0 <= jy < ny implies #[trigger] result@[jx * ny as int + jy]
                    == (MultiCollider {
                    main: cell_main(ox, oy, hx as int, hy as int, jx, jy),
                    multi: result@[jx * ny as int + jy].multi,
                }) by {
                lemma_cell_index_lt(jx, jy, ix as int, ny as int);
                if jx == ix as int - 1 {
                    assert(jx * ny as int + jy == col_start + jy);
                    assert(result@[col_start + jy] == MultiCollider {
                        main: cell_main(ox, oy, hx as int, hy as int, jx, jy),
                        multi: result@[col_start + jy].multi,
                    });
                }
            };
        }
    }
    proof {
        assert(result@.len() == nx as int * ny as int);
        assert forall|jx: int, jy: int|
            0 <= jx < nx as int && 0 <= jy < ny as int implies (#[trigger] result@[jx * ny as int
            + jy]).main == cell_main(ox, oy, hx as int, hy as int, jx, jy) by {
            lemma_cell_index_lt(jx, jy, nx as int, ny as int);
        };
    }
    result
}


/// Every member of every sector is one of the walls.
pub open spec fn members_sound(grid: Seq<MultiCollider>, walls: Seq<CollBox>) -> bool {
    forall|k: int, j: int|
        0 <= k < grid.len() && 0 <= j < grid[k].members().len() ==> walls.contains(
            #[trigger] grid[k].members()[j],
        )
}

/// Every wall that overlaps a sector's filter is among that sector's members.
pub open spec fn members_complete(grid: Seq<MultiCollider>, walls: Seq<CollBox>) -> bool {
    forall|k: int, i: int|
        0 <= k < grid.len() && 0 <= i < walls.len() && boxes_intersect(
            #[trigger] walls[i],
            (#[trigger] grid[k]).main,
        ) ==> grid[k].members().contains(walls[i])
}

/// Every wall has positive extents and lies strictly inside the region the
/// grid tiles.
pub open spec fn walls_in_region(
    walls: Seq<CollBox>,
    ox: int,
    oy: int,
    hx: int,
    hy: int,
    nx: int,
    ny: int,
) -> bool {
    forall|i: int|
        0 <= i < walls.len() ==> {
            let w = #[trigger] walls[i];
            &&& w.half_dim.x >= 1
            &&& w.half_dim.y >= 1
            &&& ox <= w.pos.x - w.half_dim.x
            &&& w.pos.x + w.half_dim.x < ox + nx * (2 * hx)
            &&& oy <= w.pos.y - w.half_dim.y
            &&& w.pos.y + w.half_dim.y < oy + ny * (2 * hy)
        }
}

/// On one axis, pick the cell of a regular tiling whose filter interval
/// strictly overlaps both the query interval and the wall interval. The two
/// intervals overlap strictly, both have positive extent, and the wall lies
/// inside the tiled range.
proof fn lemma_axis_cell(o: int, hs: int, n: int, qc: int, qh: int, wc: int, wh: int) -> (i: int)
    requires
        hs >= 1,
        n >= 1,
        qh >= 1,
        wh >= 1,
        iabs(qc - wc) < qh + wh,
        o <= wc - wh,
        wc + wh < o + n * (2 * hs),
    ensures
        0 <= i < n,
        iabs(qc - (o + i * (2 * hs) + hs)) < qh + hs,
        iabs(wc - (o + i * (2 * hs) + hs)) < wh + hs,
{
    let size = 2 * hs;
    let lo = if qc - qh >= wc - wh {
        qc - qh
    } else {
        wc - wh
    };
    let hi = if qc + qh <= wc + wh {
        qc + qh
    } else {
        wc + wh
    };
    assert(lo + 1 <= hi);
    let p = if (lo - o) % size == 0 {
        lo + 1
    } else {
        lo
    };
    if (lo - o) % size == 0 {
        vstd::arithmetic::div_mod::lemma_fundamental_div_mod(lo - o, size);
        assert(lo - o == size * ((lo - o) / size));
        assert(lo + 1 - o == ((lo - o) / size) * size + 1) by (nonlinear_arith)
            requires
                lo - o == size * ((lo - o) / size),
        ;
        vstd::arithmetic::div_mod::lemma_fundamental_div_mod_converse(
            lo + 1 - o,
            size,
            (lo - o) / size,
            1,
        );
        assert((p - o) % size == 1);
    }
    assert((p - o) % size != 0);
    let i = (p - o) / size;
    vstd::arithmetic::div_mod::lemma_fundamental_div_mod(p - o, size);
    let m = (p - o) % size;
    assert(p - o == size * i + m);
    assert(1 <= m < size);
    assert(p - o >= 0);
    assert(i >= 0) by (nonlinear_arith)
        requires
            p - o == size * i + m,
            p - o >= 0,
            1 <= m && m < size,
            size >= 2,
    ;
    assert(p - o <= n * size - 1);
    assert(i < n) by (nonlinear_arith)
        requires
            p - o == size * i + m,
            p - o <= n * size - 1,
            1 <= m && m < size,
            size >= 2,
    ;
    let c = o + i * size + hs;
    assert(p - c == m - hs);
    assert(iabs(p - c) <= hs - 1);
    assert(qc - qh <= p && p <= qc + qh);
    assert(iabs(qc - c) < qh + hs);
    assert(wc - wh <= p && p <= wc + wh);
    assert(iabs(wc - c) < wh + hs);
    i
}

/// The fields of a cell's filter box, with the casts discharged: inside the
/// working range the cell box is exact and valid.
proof fn lemma_cell_main_fields(ox: int, oy: int, hx: int, hy: int, ix: int, iy: int, nx: int, ny: int)
    requires
        1 <= hx,
        1 <= hy,
        0 <= ix < nx,
        0 <= iy < ny,
        -1_000_000_000 <= ox,
        ox + nx * (2 * hx) <= 1_000_000_000,
        -1_000_000_000 <= oy,
        oy + ny * (2 * hy) <= 1_000_000_000,
        hx <= 1_000_000_000,
        hy <= 1_000_000_000,
    ensures
        cell_main(ox, oy, hx, hy, ix, iy).pos.x as int == ox + ix * (2 * hx) + hx,
        cell_main(ox, oy, hx, hy, ix, iy).pos.y as int == oy + iy * (2 * hy) + hy,
        cell_main(ox, oy, hx, hy, ix, iy).half_dim.x as int == hx,
        cell_main(ox, oy, hx, hy, ix, iy).half_dim.y as int == hy,
        cell_main(ox, oy, hx, hy, ix, iy).wf(),
{
    assert(0 <= ix * (2 * hx) && ix * (2 * hx) + 2 * hx <= nx * (2 * hx) && 0 <= iy * (2 * hy)
        && iy * (2 * hy) + 2 * hy <= ny * (2 * hy)) by (nonlinear_arith)
        requires
            1 <= hx,
            1 <= hy,
            0 <= ix && ix < nx,
            0 <= iy && iy < ny,
    ;
}

/// Broad-phase equivalence: on a generated grid whose members were bucketed
/// completely and soundly from the wall set, the sectored query answers
/// exactly as a linear scan over all walls. Requires positive extents on the
/// query and the walls, and walls inside the tiled region: a zero-extent
/// probe lying exactly on a sector boundary can miss.
pub proof fn lemma_grid_query_equivalence(
    grid: Seq<MultiCollider>,
    walls: Seq<CollBox>,
    q: CollBox,
    ox: int,
    oy: int,
    hx: int,
    hy: int,
    nx: int,
    ny: int,
)
    requires
        grid_mains(grid, ox, oy, hx, hy, nx, ny),
        members_sound(grid, walls),
        members_complete(grid, walls),
        walls_in_region(walls, ox, oy, hx, hy, nx, ny),
        1 <= hx <= 1_000_000_000,
        1 <= hy <= 1_000_000_000,
        1 <= nx,
        1 <= ny,
        q.half_dim.x >= 1,
        q.half_dim.y >= 1,
        -1_000_000_000 <= ox,
        ox + nx * (2 * hx) <= 1_000_000_000,
        -1_000_000_000 <= oy,
        oy + ny * (2 * hy) <= 1_000_000_000,
    ensures
        spec_grid_hit(grid, q) == spec_any_wall_hit(walls, q),
{
    if spec_grid_hit(grid, q) {
        let k = choose|k: int| 0 <= k < grid.len() && spec_sector_hit(grid[k], q);
        let j = choose|j: int|
            0 <= j < grid[k].members().len() && boxes_intersect(q, grid[k].members()[j]);
        let m = grid[k].members()[j];
        assert(walls.contains(m));
        let i = choose|i: int| 0 <= i < walls.len() && walls[i] == m;
        assert(boxes_intersect(q, walls[i]));
        assert(spec_any_wall_hit(walls, q));
    }
    if spec_any_wall_hit(walls, q) {
        let i = choose|i: int| 0 <= i < walls.len() && boxes_intersect(q, walls[i]);
        let w = walls[i];
        let ix = lemma_axis_cell(
            ox,
            hx,
            nx,
            q.pos.x as int,
            q.half_dim.x as int,
            w.pos.x as int,
            w.half_dim.x as int,
        );
        let iy = lemma_axis_cell(
            oy,
            hy,
            ny,
            q.pos.y as int,
            q.half_dim.y as int,
            w.pos.y as int,
            w.half_dim.y as int,
        );
        lemma_cell_index_lt(ix, iy, nx, ny);
        let k = ix * ny + iy;
        let c = grid[k].main;
        assert(c == cell_main(ox, oy, hx, hy, ix, iy));
        lemma_cell_main_fields(ox, oy, hx, hy, ix, iy, nx, ny);
        assert(boxes_intersect(q, c));
        assert(boxes_intersect(w, c));
        assert(grid[k].members().contains(w));
        let j = choose|j: int| 0 <= j < grid[k].members().len() && grid[k].members()[j] == w;
        assert(boxes_intersect(q, grid[k].members()[j]));
        assert(spec_sector_hit(grid[k], q));
        assert(spec_grid_hit(grid, q));
    }
}

/// A hit over a grid decomposes over its first sector.
proof fn lemma_grid_hit_cons(x: MultiCollider, rest: Seq<MultiCollider>, q: CollBox)
    ensures
        spec_grid_hit(seq![x] + rest, q) == (spec_sector_hit(x, q) || spec_grid_hit(rest, q)),
{
    let g = seq![x] + rest;
    if spec_grid_hit(g, q) {
        let k = choose|k: int| 0 <= k < g.len() && spec_sector_hit(g[k], q);
        if k == 0 {
            assert(g[0] == x);
        } else {
            assert(g[k] == rest[k - 1]);
            assert(spec_grid_hit(rest, q));
        }
    }
    if spec_sector_hit(x, q) {
        assert(g[0] == x);
        assert(spec_grid_hit(g, q));
    }
    if spec_grid_hit(rest, q) {
        let k = choose|k: int| 0 <= k < rest.len() && spec_sector_hit(rest[k], q);
        assert(g[k + 1] == rest[k]);
        assert(spec_grid_hit(g, q));
    }
}

/// Culling empty sectors never changes the answer of a grid query.
pub proof fn lemma_cull_preserves_hit(grid: Seq<MultiCollider>, q: CollBox)
    ensures
        spec_grid_hit(spec_cull(grid), q) == spec_grid_hit(grid, q),
    decreases grid.len(),
{
    if grid.len() == 0 {
    } else {
        let rest = grid.drop_first();
        lemma_cull_preserves_hit(rest, q);
        assert(grid =~= seq![grid[0]] + rest);
        lemma_grid_hit_cons(grid[0], rest, q);
        if grid[0].members().len() > 0 {
            lemma_grid_hit_cons(grid[0], spec_cull(rest), q);
        } else {
            assert(!spec_sector_hit(grid[0], q));
        }
    }
}


/// Culling preserves the validity of every kept sector.
pub proof fn lemma_cull_wf(grid: Seq<MultiCollider>)
    requires
        forall|k: int| 0 <= k < grid.len() ==> (#[trigger] grid[k]).wf(),
    ensures
        forall|k: int| 0 <= k < spec_cull(grid).len() ==> (#[trigger] spec_cull(grid)[k]).wf(),
    decreases grid.len(),
{
    if grid.len() == 0 {
    } else {
        let rest = grid.drop_first();
        assert(forall|k: int| 0 <= k < rest.len() ==> #[trigger] rest[k] == grid[k + 1]);
        lemma_cull_wf(rest);
        if grid[0].members().len() > 0 {
            assert forall|k: int| 0 <= k < spec_cull(grid).len() implies (#[trigger] spec_cull(
                grid,
            )[k]).wf() by {
                if k == 0 {
                    assert(spec_cull(grid)[0] == grid[0]);
                } else {
                    assert(spec_cull(grid)[k] == spec_cull(rest)[k - 1]);
                }
            };
        } else {
            assert forall|k: int| 0 <= k < spec_cull(grid).len() implies (#[trigger] spec_cull(
                grid,
            )[k]).wf() by {
                assert(spec_cull(grid)[k] == spec_cull(rest)[k]);
            };
        }
    }
}


/// Every sector the cull keeps is one of the original sectors.
proof fn lemma_cull_elements(grid: Seq<MultiCollider>)
    ensures
        forall|k: int|
            0 <= k < spec_cull(grid).len() ==> exists|k0: int|
                0 <= k0 < grid.len() && grid[k0] == #[trigger] spec_cull(grid)[k],
    decreases grid.len(),
{
    if grid.len() == 0 {
    } else {
        let rest = grid.drop_first();
        lemma_cull_elements(rest);
        assert(forall|k: int| 0 <= k < rest.len() ==> #[trigger] rest[k] == grid[k + 1]);
        assert forall|k: int| 0 <= k < spec_cull(grid).len() implies exists|k0: int|
            0 <= k0 < grid.len() && grid[k0] == #[trigger] spec_cull(grid)[k] by {
            if grid[0].members().len() > 0 {
                if k == 0 {
                    assert(spec_cull(grid)[0] == grid[0]);
                } else {
                    assert(spec_cull(grid)[k] == spec_cull(rest)[k - 1]);
                    let k1 = choose|k1: int|
                        0 <= k1 < rest.len() && rest[k1] == spec_cull(rest)[k - 1];
                    assert(grid[k1 + 1] == spec_cull(grid)[k]);
                }
            } else {
                assert(spec_cull(grid)[k] == spec_cull(rest)[k]);
                let k1 = choose|k1: int| 0 <= k1 < rest.len() && rest[k1] == spec_cull(rest)[k];
                assert(grid[k1 + 1] == spec_cull(grid)[k]);
            }
        };
    }
}

/// Culling empty sectors keeps the membership bookkeeping sound and
/// complete with respect to the same wall set.
pub proof fn lemma_cull_members(grid: Seq<MultiCollider>, walls: Seq<CollBox>)
    requires
        members_sound(grid, walls),
        members_complete(grid, walls),
    ensures
        members_sound(spec_cull(grid), walls),
        members_complete(spec_cull(grid), walls),
{
    lemma_cull_elements(grid);
    let culled = spec_cull(grid);
    assert forall|k: int, j: int|
        0 <= k < culled.len() && 0 <= j < culled[k].members().len() implies walls.contains(
        #[trigger] culled[k].members()[j],
    ) by {
        let k0 = choose|k0: int| 0 <= k0 < grid.len() && grid[k0] == culled[k];
        assert(walls.contains(grid[k0].members()[j]));
    };
    assert forall|k: int, i: int|
        0 <= k < culled.len() && 0 <= i < walls.len() && boxes_intersect(
            #[trigger] walls[i],
            (#[trigger] culled[k]).main,
        ) implies culled[k].members().contains(walls[i]) by {
        let k0 = choose|k0: int| 0 <= k0 < grid.len() && grid[k0] == culled[k];
        assert(grid[k0].members().contains(walls[i]));
    };
}


/// Every sector the cull keeps holds at least one member.
pub proof fn lemma_cull_nonempty(grid: Seq<MultiCollider>)
    ensures
        forall|k: int|
            0 <= k < spec_cull(grid).len() ==> (#[trigger] spec_cull(grid)[k]).members().len() > 0,
    decreases grid.len(),
{
    if grid.len() == 0 {
    } else {
        let rest = grid.drop_first();
        lemma_cull_nonempty(rest);
        if grid[0].members().len() > 0 {
            assert forall|k: int|
                0 <= k < spec_cull(grid).len() implies (#[trigger] spec_cull(grid)[k]).members().len()
                > 0 by {
                if k == 0 {
                    assert(spec_cull(grid)[0] == grid[0]);
                } else {
                    assert(spec_cull(grid)[k] == spec_cull(rest)[k - 1]);
                }
            };
        } else {
            assert forall|k: int|
                0 <= k < spec_cull(grid).len() implies (#[trigger] spec_cull(grid)[k]).members().len()
                > 0 by {
                assert(spec_cull(grid)[k] == spec_cull(rest)[k]);
            };
        }
    }
}


/// The flat index of a cell is inside a generated grid.
pub proof fn lemma_cell_index_bounds(ix: int, iy: int, nx: int, ny: int)
    requires
        0 <= ix,
        ix < nx,
        0 <= iy,
        iy < ny,
    ensures
        0 <= ix * ny + iy,
        ix * ny + iy < nx * ny,
{
    lemma_cell_index_lt(ix, iy, nx, ny);
}

} // verus!
