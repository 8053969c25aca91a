//! Fixed-point scalars and 2D vectors.
//!
//! A value counts thousandths: of a world unit for positions and half-extents,
//! of a world unit per second for velocities, of a second for timers and time
//! steps. All operations stay inside `[-FX_MAX, FX_MAX]`; products saturate at
//! that bound, so arithmetic never overflows and every result is pinned
//! exactly by the spec functions below.
use vstd::prelude::*;

verus! {

/// One whole unit (of distance or of time) in fixed-point thousandths.
pub const FX_ONE: i64 = 1000;

/// Magnitude bound on every fixed-point quantity: one million whole units.
pub const FX_MAX: i64 = 1_000_000_000;

/// The quantity lies inside the fixed-point working range.
pub open spec fn fx_in_range(v: int) -> bool {
    -(FX_MAX as int) <= v <= FX_MAX as int
}

/// Absolute value.
pub open spec fn iabs(v: int) -> int {
    if v >= 0 {
        v
    } else {
        -v
    }
}

/// Saturate a mathematical value into the working range.
pub open spec fn fx_sat(v: int) -> int {
    if v > FX_MAX as int {
        FX_MAX as int
    } else if v < -(FX_MAX as int) {
        -(FX_MAX as int)
    } else {
        v
    }
}

/// Integer division truncated toward zero (the rounding used throughout).
pub open spec fn div_trunc(p: int, q: int) -> int
    recommends
        q > 0,
{
    if p >= 0 {
        p / q
    } else {
        -((-p) / q)
    }
}

/// Saturating addition.
pub open spec fn spec_fx_add(a: int, b: int) -> int {
    fx_sat(a + b)
}

/// Saturating fixed-point product: `a * b` rescaled by one whole unit.
pub open spec fn spec_fx_mul(a: int, b: int) -> int {
    fx_sat(div_trunc(a * b, FX_ONE as int))
}

pub fn fx_add(a: i64, b: i64) -> (r: i64)
    requires
        fx_in_range(a as int),
        fx_in_range(b as int),
    ensures
        r as int == spec_fx_add(a as int, b as int),
        fx_in_range(r as int),
{
    let s = a + b;
    if s > FX_MAX {
        FX_MAX
    } else if s < -FX_MAX {
        -FX_MAX
    } else {
        s
    }
}

pub fn fx_sub(a: i64, b: i64) -> (r: i64)
    requires
        fx_in_range(a as int),
        fx_in_range(b as int),
    ensures
        r as int == spec_fx_add(a as int, -b as int),
        fx_in_range(r as int),
{
    let s = a - b;
    if s > FX_MAX {
        FX_MAX
    } else if s < -FX_MAX {
        -FX_MAX
    } else {
        s
    }
}

pub fn fx_mul(a: i64, b: i64) -> (r: i64)
    requires
        fx_in_range(a as int),
        fx_in_range(b as int),
    ensures
        r as int == spec_fx_mul(a as int, b as int),
        fx_in_range(r as int),
{
    let am: u64 = if a < 0 {
        (-a) as u64
    } else {
        a as u64
    };
    let bm: u64 = if b < 0 {
        (-b) as u64
    } else {
        b as u64
    };
    proof {
        assert(am as int * bm as int <= FX_MAX as int * FX_MAX as int) by (nonlinear_arith)
            requires
                0 <= am as int <= FX_MAX as int,
                0 <= bm as int <= FX_MAX as int,
        ;
    }
    let p: u64 = am * bm;
    let q: u64 = p / 1000;
    let neg: bool = (a < 0) != (b < 0);
    proof {
        assert((a as int) * (b as int) == (if (a as int >= 0) == (b as int >= 0) {
            am as int * bm as int
        } else {
            -(am as int * bm as int)
        })) by (nonlinear_arith)
            requires
                am as int == (if a as int >= 0 { a as int } else { -(a as int) }),
                bm as int == (if b as int >= 0 { b as int } else { -(b as int) }),
        ;
    }
    let qc: i64 = if q > FX_MAX as u64 {
        FX_MAX
    } else {
        q as i64
    };
    if neg {
        -qc
    } else {
        qc
    }
}

/// Move `val` toward `target` by at most `delta`, landing exactly on the
/// target when it is within reach.
pub open spec fn spec_move_toward(val: int, target: int, delta: int) -> int {
    let dif = target - val;
    if dif > delta {
        val + delta
    } else if -dif > delta {
        val - delta
    } else {
        target
    }
}

pub fn fx_move_toward(val: i64, target: i64, delta: i64) -> (r: i64)
    requires
        fx_in_range(val as int),
        fx_in_range(target as int),
        0 <= delta,
        fx_in_range(delta as int),
    ensures
        r as int == spec_move_toward(val as int, target as int, delta as int),
        fx_in_range(r as int),
{
    let dif = target - val;
    if dif > delta {
        val + delta
    } else if -dif > delta {
        val - delta
    } else {
        target
    }
}

/// One step of the first-order decay approach: advance by the fraction
/// `delta` of the remaining gap (a whole unit of `delta` closes the gap
/// completely). This is the discrete stand-in for the exponential-style
/// easing used by the camera, the flight trail, and the stalking enemy.
pub open spec fn spec_decay_toward(val: int, target: int, delta: int) -> int {
    let f = if delta > FX_ONE as int {
        FX_ONE as int
    } else if delta < 0 {
        0
    } else {
        delta
    };
    val + div_trunc((target - val) * f, FX_ONE as int)
}

pub fn fx_decay_toward(val: i64, target: i64, delta: i64) -> (r: i64)
    requires
        fx_in_range(val as int),
        fx_in_range(target as int),
    ensures
        r as int == spec_decay_toward(val as int, target as int, delta as int),
        fx_in_range(r as int),
{
    let f: i64 = if delta > FX_ONE {
        FX_ONE
    } else if delta < 0 {
        0
    } else {
        delta
    };
    let dif = target - val;
    let dm: u64 = if dif < 0 {
        (-dif) as u64
    } else {
        dif as u64
    };
    proof {
        assert(dm as int * f as int <= 2_000_000_000 * 1000) by (nonlinear_arith)
            requires
                0 <= dm as int <= 2_000_000_000,
                0 <= f as int <= 1000,
        ;
        assert((dif as int) * (f as int) == (if dif as int >= 0 {
            dm as int * f as int
        } else {
            -(dm as int * f as int)
        })) by (nonlinear_arith)
            requires
                dm as int == (if (dif as int) >= 0 { dif as int } else { -(dif as int) }),
                0 <= f as int,
        ;
        assert(dm as int * f as int / 1000 <= dm as int) by (nonlinear_arith)
            requires
                0 <= dm as int,
                0 <= f as int <= 1000,
        ;
    }
    let step_m: u64 = dm * (f as u64) / 1000;
    let step: i64 = if dif < 0 {
        -(step_m as i64)
    } else {
        step_m as i64
    };
    let r = val + step;
    proof {
        assert(fx_in_range(r as int)) by {
            let d = dif as int;
            let s = step as int;
            if d >= 0 {
                assert(0 <= s <= d);
            } else {
                assert(d <= s <= 0);
            }
        };
    }
    r
}

/// `r` is the integer square root of `n`.
pub open spec fn is_isqrt(r: int, n: int) -> bool {
    0 <= r && r * r <= n < (r + 1) * (r + 1)
}

pub fn isqrt64(n: u64) -> (r: u64)
    ensures
        is_isqrt(r as int, n as int),
{
    let mut lo: u64 = 0;
    let mut hi: u64 = if n < 4294967295 {
        n
    } else {
        4294967295
    };
    proof {
        assert((hi as int + 1) * (hi as int + 1) > n as int) by (nonlinear_arith)
            requires
                hi as int == (if (n as int) < 4294967295 { n as int } else { 4294967295 }),
                0 <= n as int && (n as int) < 0x1_0000_0000_0000_0000,
        ;
    }
    while lo < hi
        invariant
            0 <= lo as int <= hi as int + 1,
            hi as int <= 4294967295,
            lo as int * lo as int <= n as int,
            (hi as int + 1) * (hi as int + 1) > n as int,
        decreases hi as int - lo as int,
    {
        let mid: u64 = lo + (hi - lo + 1) / 2;
        proof {
            assert(mid as int * mid as int <= 4294967295 * 4294967295) by (nonlinear_arith)
                requires
                    0 <= mid as int <= 4294967295,
            ;
        }
        if mid * mid <= n {
            lo = mid;
        } else {
            hi = mid - 1;
        }
    }
    lo
}

/// The integer square root, as a mathematical function.
pub open spec fn spec_isqrt(n: int) -> int {
    choose|r: int| is_isqrt(r, n)
}

/// Every nonnegative integer has an integer square root.
pub proof fn lemma_isqrt_exists(n: int)
    requires
        n >= 0,
    ensures
        is_isqrt(spec_isqrt(n), n),
    decreases n,
{
    if n == 0 {
        assert(is_isqrt(0, 0));
    } else {
        lemma_isqrt_exists(n - 1);
        let r = spec_isqrt(n - 1);
        if n == (r + 1) * (r + 1) {
            assert((r + 2) * (r + 2) > n) by (nonlinear_arith)
                requires
                    0 <= r,
                    n == (r + 1) * (r + 1),
            ;
            assert(is_isqrt(r + 1, n));
        } else {
            assert(is_isqrt(r, n));
        }
    }
}

/// The integer square root is unique.
pub proof fn lemma_isqrt_unique(r1: int, r2: int, n: int)
    requires
        is_isqrt(r1, n),
        is_isqrt(r2, n),
    ensures
        r1 == r2,
{
    if r1 < r2 {
        assert((r1 + 1) * (r1 + 1) <= r2 * r2) by (nonlinear_arith)
            requires
                0 <= r1,
                r1 + 1 <= r2,
        ;
    }
    if r2 < r1 {
        assert((r2 + 1) * (r2 + 1) <= r1 * r1) by (nonlinear_arith)
            requires
                0 <= r2,
                r2 + 1 <= r1,
        ;
    }
}

pub fn fx_min(a: i64, b: i64) -> (r: i64)
    ensures
        r as int == (if a as int <= b as int { a as int } else { b as int }),
{
    if a <= b {
        a
    } else {
        b
    }
}

pub fn fx_max(a: i64, b: i64) -> (r: i64)
    ensures
        r as int == (if a as int >= b as int { a as int } else { b as int }),
{
    if a >= b {
        a
    } else {
        b
    }
}

/// Clamp into `[lo, hi]`.
pub open spec fn spec_clamp(v: int, lo: int, hi: int) -> int {
    if v < lo {
        lo
    } else if v > hi {
        hi
    } else {
        v
    }
}

pub fn fx_clamp(v: i64, lo: i64, hi: i64) -> (r: i64)
    requires
        lo <= hi,
    ensures
        r as int == spec_clamp(v as int, lo as int, hi as int),
{
    if v < lo {
        lo
    } else if v > hi {
        hi
    } else {
        v
    }
}

/// A fixed-point 2D vector.
#[derive(Clone, Copy, PartialEq, Eq, Structural, Debug)]
pub struct Vec2Fx {
    pub x: i64,
    pub y: i64,
}

/// Division of `p * FX_ONE` by a positive length, truncated toward zero:
/// one component of a normalized vector.
pub open spec fn spec_norm_component(p: int, len: int) -> int
    recommends
        len > 0,
{
    div_trunc(p * FX_ONE as int, len)
}

impl Vec2Fx {
    /// Both components lie in the fixed-point working range.
    pub open spec fn wf(self) -> bool {
        fx_in_range(self.x as int) && fx_in_range(self.y as int)
    }

    pub fn new(x: i64, y: i64) -> (r: Vec2Fx)
        ensures
            r.x == x,
            r.y == y,
    {
        Vec2Fx { x, y }
    }

    pub fn zero() -> (r: Vec2Fx)
        ensures
            r.x == 0,
            r.y == 0,
    {
        Vec2Fx { x: 0, y: 0 }
    }

    pub fn plus(self, o: Vec2Fx) -> (r: Vec2Fx)
        requires
            self.wf(),
            o.wf(),
        ensures
            r.x as int == spec_fx_add(self.x as int, o.x as int),
            r.y as int == spec_fx_add(self.y as int, o.y as int),
            r.wf(),
    {
        Vec2Fx { x: fx_add(self.x, o.x), y: fx_add(self.y, o.y) }
    }

    pub fn minus(self, o: Vec2Fx) -> (r: Vec2Fx)
        requires
            self.wf(),
            o.wf(),
        ensures
            r.x as int == spec_fx_add(self.x as int, -o.x as int),
            r.y as int == spec_fx_add(self.y as int, -o.y as int),
            r.wf(),
    {
        Vec2Fx { x: fx_sub(self.x, o.x), y: fx_sub(self.y, o.y) }
    }

    /// Scale both components by the fixed-point factor `s`.
    pub fn scale(self, s: i64) -> (r: Vec2Fx)
        requires
            self.wf(),
            fx_in_range(s as int),
        ensures
            r.x as int == spec_fx_mul(self.x as int, s as int),
            r.y as int == spec_fx_mul(self.y as int, s as int),
            r.wf(),
    {
        Vec2Fx { x: fx_mul(self.x, s), y: fx_mul(self.y, s) }
    }

    /// Dot product on the raw fixed-point components.
    pub fn dot(self, o: Vec2Fx) -> (r: i64)
        requires
            self.wf(),
            o.wf(),
        ensures
            r as int == self.x as int * o.x as int + self.y as int * o.y as int,
    {
        proof {
            assert(self.x as int * o.x as int <= FX_MAX as int * FX_MAX as int
                && self.x as int * o.x as int >= -(FX_MAX as int * FX_MAX as int)
                && self.y as int * o.y as int <= FX_MAX as int * FX_MAX as int
                && self.y as int * o.y as int >= -(FX_MAX as int * FX_MAX as int)) by (nonlinear_arith)
                requires
                    fx_in_range(self.x as int),
                    fx_in_range(self.y as int),
                    fx_in_range(o.x as int),
                    fx_in_range(o.y as int),
            ;
        }
        self.x * o.x + self.y * o.y
    }

    /// Squared distance between two points.
    pub fn distance_squared(self, o: Vec2Fx) -> (r: i64)
        requires
            self.wf(),
            o.wf(),
        ensures
            r as int == (self.x - o.x) * (self.x - o.x) + (self.y - o.y) * (self.y - o.y),
            r >= 0,
    {
        let dx = self.x - o.x;
        let dy = self.y - o.y;
        proof {
            assert(dx as int * dx as int <= 2_000_000_000 * 2_000_000_000
                && dx as int * dx as int >= 0
                && dy as int * dy as int <= 2_000_000_000 * 2_000_000_000
                && dy as int * dy as int >= 0) by (nonlinear_arith)
                requires
                    -2_000_000_000 <= dx as int <= 2_000_000_000,
                    -2_000_000_000 <= dy as int <= 2_000_000_000,
            ;
        }
        dx * dx + dy * dy
    }
}

/// The length of the vector `(x, y)`: the integer square root of the squared
/// length, exact in the shared fixed-point scale.
pub open spec fn spec_vec_len(x: int, y: int) -> int {
    spec_isqrt(x * x + y * y)
}

/// Length of a difference vector; components up to twice the working range.
pub fn vec_len(x: i64, y: i64) -> (r: i64)
    requires
        -2_000_000_000 <= x <= 2_000_000_000,
        -2_000_000_000 <= y <= 2_000_000_000,
    ensures
        r as int == spec_vec_len(x as int, y as int),
        0 <= r <= 2_828_427_125,
        x as int <= r && -(x as int) <= r && y as int <= r && -(y as int) <= r,
{
    let xm: u64 = if x < 0 {
        (-x) as u64
    } else {
        x as u64
    };
    let ym: u64 = if y < 0 {
        (-y) as u64
    } else {
        y as u64
    };
    proof {
        assert(xm as int * xm as int == x as int * x as int
            && ym as int * ym as int == y as int * y as int
            && xm as int * xm as int <= 2_000_000_000 * 2_000_000_000
            && ym as int * ym as int <= 2_000_000_000 * 2_000_000_000) by (nonlinear_arith)
            requires
                xm as int == (if (x as int) >= 0 { x as int } else { -(x as int) }),
                ym as int == (if (y as int) >= 0 { y as int } else { -(y as int) }),
                -2_000_000_000 <= x as int <= 2_000_000_000,
                -2_000_000_000 <= y as int <= 2_000_000_000,
        ;
    }
    let n: u64 = xm * xm + ym * ym;
    let r = isqrt64(n);
    proof {
        lemma_isqrt_exists(n as int);
        lemma_isqrt_unique(r as int, spec_isqrt(n as int), n as int);
        assert(r as int <= 2_828_427_125 && xm as int <= r as int && ym as int <= r as int)
            by (nonlinear_arith)
            requires
                is_isqrt(r as int, n as int),
                n as int == xm as int * xm as int + ym as int * ym as int,
                0 <= xm as int,
                0 <= ym as int,
                n as int <= 8_000_000_000_000_000_000,
        ;
    }
    r as i64
}

/// Scaled unit vector: each component is `c * FX_ONE / len`, truncated toward
/// zero, with the zero vector mapped to itself.
pub open spec fn spec_normalize(x: int, y: int) -> Vec2Fx {
    if x == 0 && y == 0 {
        Vec2Fx { x: 0, y: 0 }
    } else {
        Vec2Fx {
            x: spec_norm_component(x, spec_vec_len(x, y)) as i64,
            y: spec_norm_component(y, spec_vec_len(x, y)) as i64,
        }
    }
}

/// One signed component of a normalized vector: `c * FX_ONE / len`.
fn norm_component(c: i64, len: i64) -> (r: i64)
    requires
        -2_000_000_000 <= c <= 2_000_000_000,
        0 < len,
        c as int <= len as int,
        -(c as int) <= len as int,
    ensures
        r as int == spec_norm_component(c as int, len as int),
        -(FX_ONE as int) <= r as int <= FX_ONE as int,
{
    let cm: u64 = if c < 0 {
        (-c) as u64
    } else {
        c as u64
    };
    let q: u64 = cm * 1000 / (len as u64);
    proof {
        assert(cm as int * 1000 / (len as int) <= 1000 && (c as int) * 1000 == (if (c as int) >= 0 {
            cm as int * 1000
        } else {
            -(cm as int * 1000)
        })) by (nonlinear_arith)
            requires
                cm as int == (if (c as int) >= 0 { c as int } else { -(c as int) }),
                0 < len as int,
                cm as int <= len as int,
        ;
    }
    if c < 0 {
        -(q as i64)
    } else {
        q as i64
    }
}

/// Normalize a difference vector into a scaled unit vector.
pub fn vec_normalize(x: i64, y: i64) -> (r: Vec2Fx)
    requires
        -2_000_000_000 <= x <= 2_000_000_000,
        -2_000_000_000 <= y <= 2_000_000_000,
    ensures
        r == spec_normalize(x as int, y as int),
        -(FX_ONE as int) <= r.x as int <= FX_ONE as int,
        -(FX_ONE as int) <= r.y as int <= FX_ONE as int,
        r.wf(),
{
    if x == 0 && y == 0 {
        Vec2Fx { x: 0, y: 0 }
    } else {
        let len = vec_len(x, y);
        proof {
            if len == 0 {
                assert(x as int * x as int + y as int * y as int > 0) by (nonlinear_arith)
                    requires
                        !(x as int == 0 && y as int == 0),
                ;
                assert(false);
            }
        }
        Vec2Fx { x: norm_component(x, len), y: norm_component(y, len) }
    }
}


/// 2D move-toward: step from `val` toward `target` by at most `delta`,
/// along the straight line between them (componentwise truncated), landing
/// exactly on the target when it is within reach. A nonpositive `delta`
/// leaves `val` unchanged.
pub open spec fn spec_move_toward_2d(val: Vec2Fx, target: Vec2Fx, delta: int) -> Vec2Fx {
    if delta <= 0 {
        val
    } else {
        let dx = target.x - val.x;
        let dy = target.y - val.y;
        let len = spec_vec_len(dx, dy);
        if len > delta {
            Vec2Fx {
                x: fx_sat(val.x + div_trunc(dx * delta, len)) as i64,
                y: fx_sat(val.y + div_trunc(dy * delta, len)) as i64,
            }
        } else {
            target
        }
    }
}

/// One signed component of the step `c * delta / len`.
fn step_component(c: i64, delta: i64, len: i64) -> (r: i64)
    requires
        -2_000_000_000 <= c <= 2_000_000_000,
        0 < delta <= FX_MAX,
        0 < len,
        c as int <= len as int,
        -(c as int) <= len as int,
    ensures
        r as int == div_trunc(c as int * delta as int, len as int),
        -(delta as int) <= r as int <= delta as int,
{
    let cm: u64 = if c < 0 {
        (-c) as u64
    } else {
        c as u64
    };
    proof {
        assert(cm as int * delta as int <= 2_000_000_000 * 1_000_000_000
            && (c as int) * (delta as int) == (if (c as int) >= 0 {
            cm as int * delta as int
        } else {
            -(cm as int * delta as int)
        }) && cm as int * delta as int / (len as int) <= delta as int) by (nonlinear_arith)
            requires
                cm as int == (if (c as int) >= 0 { c as int } else { -(c as int) }),
                0 <= cm as int <= 2_000_000_000,
                0 < delta as int <= 1_000_000_000,
                0 < len as int,
                cm as int <= len as int,
        ;
    }
    let q: u64 = cm * (delta as u64) / (len as u64);
    if c < 0 {
        -(q as i64)
    } else {
        q as i64
    }
}

pub fn vec_move_toward(val: Vec2Fx, target: Vec2Fx, delta: i64) -> (r: Vec2Fx)
    requires
        val.wf(),
        target.wf(),
        delta <= FX_MAX,
    ensures
        r == spec_move_toward_2d(val, target, delta as int),
        r.wf(),
{
    if delta <= 0 {
        return val;
    }
    let dx = target.x - val.x;
    let dy = target.y - val.y;
    let len = vec_len(dx, dy);
    if len > delta {
        let sx = step_component(dx, delta, len);
        let sy = step_component(dy, delta, len);
        Vec2Fx { x: fx_add(val.x, sx), y: fx_add(val.y, sy) }
    } else {
        target
    }
}

/// Componentwise first-order decay toward a target.
pub open spec fn spec_decay_toward_2d(val: Vec2Fx, target: Vec2Fx, delta: int) -> Vec2Fx {
    Vec2Fx {
        x: spec_decay_toward(val.x as int, target.x as int, delta) as i64,
        y: spec_decay_toward(val.y as int, target.y as int, delta) as i64,
    }
}

pub fn vec_decay_toward(val: Vec2Fx, target: Vec2Fx, delta: i64) -> (r: Vec2Fx)
    requires
        val.wf(),
        target.wf(),
    ensures
        r == spec_decay_toward_2d(val, target, delta as int),
        r.wf(),
{
    Vec2Fx {
        x: fx_decay_toward(val.x, target.x, delta),
        y: fx_decay_toward(val.y, target.y, delta),
    }
}

} // verus!
