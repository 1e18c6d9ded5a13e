use vstd::prelude::*;
use vstd::arithmetic::div_mod::{lemma_div_multiples_vanish, lemma_fundamental_div_mod};

verus! {

/// Logical units per render-space unit, shared by every conversion.
pub const WORLD_SCALE: i64 = 10;

/// True when `v` can be held by an `i64`.
pub open spec fn in_i64(v: int) -> bool {
    i64::MIN <= v <= i64::MAX
}

/// Quotient of `a` by `b` (with `b > 0`), rounded toward zero as Rust's `/` rounds.
pub open spec fn trunc_div(a: int, b: int) -> int {
    if a >= 0 {
        a / b
    } else {
        -((-a) / b)
    }
}

/// An exact location in the logical world, in logical units. It is the one
/// authoritative place of an entity; render-space coordinates are derived from it.
#[derive(Clone, Copy, Debug, PartialEq, Eq, Structural)]
pub struct WorldPosition {
    pub x: i64,
    pub y: i64,
}

/// The render-space coordinate, in whole render units rounded toward zero, at which
/// the logical coordinate `p` appears when the camera stands at logical `c`.
pub open spec fn render_units(p: int, c: int, scale: int) -> int {
    trunc_div(p - c, scale)
}

/// The logical coordinate of the whole render-space coordinate `r` when the camera
/// stands at logical `c`.
pub open spec fn logical_of_render(r: int, c: int, scale: int) -> int {
    c + r * scale
}

impl WorldPosition {
    pub fn new(x: i64, y: i64) -> (r: WorldPosition)
        ensures
            r.x == x,
            r.y == y,
    {
        WorldPosition { x, y }
    }

    /// The origin of the logical world.
    pub fn origin() -> (r: WorldPosition)
        ensures
            r.x == 0,
            r.y == 0,
    {
        WorldPosition { x: 0, y: 0 }
    }

    /// The offset of `self` from `camera`, computed exactly in integers; render
    /// space divides this offset by the scale, and only then leaves integers.
    pub fn offset_from(&self, camera: &WorldPosition) -> (r: WorldPosition)
        requires
            in_i64(self.x - camera.x),
            in_i64(self.y - camera.y),
        ensures
            r.x == self.x - camera.x,
            r.y == self.y - camera.y,
    {
        WorldPosition { x: self.x - camera.x, y: self.y - camera.y }
    }

    /// The logical position of a render-space point whose coordinates were rounded
    /// toward zero to `(x, y)`, for a camera at logical `camera`.
    pub fn from_render_units(x: i64, y: i64, camera: &WorldPosition, scale: i64) -> (r:
        WorldPosition)
        requires
            in_i64(logical_of_render(x as int, camera.x as int, scale as int)),
            in_i64(logical_of_render(y as int, camera.y as int, scale as int)),
        ensures
            r.x == logical_of_render(x as int, camera.x as int, scale as int),
            r.y == logical_of_render(y as int, camera.y as int, scale as int),
    {
        let rx: i128 = camera.x as i128 + x as i128 * scale as i128;
        let ry: i128 = camera.y as i128 + y as i128 * scale as i128;
        WorldPosition { x: rx as i64, y: ry as i64 }
    }
}

proof fn lemma_axis_round_trip(p: int, c: int, scale: int)
    requires
        scale > 1,
    ensures
        -scale < logical_of_render(render_units(p, c, scale), c, scale) - p < scale,
        (p - c) % scale == 0 ==> logical_of_render(render_units(p, c, scale), c, scale) == p,
{
    let d = p - c;
    if d >= 0 {
        let q = d / scale;
        assert(q * scale <= d < q * scale + scale) by (nonlinear_arith)
            requires
                scale > 0,
                d >= 0,
                q == d / scale,
        ;
        assert(d % scale == 0 ==> q * scale == d) by (nonlinear_arith)
            requires
                scale > 0,
                q == d / scale,
        ;
    } else {
        let q = (-d) / scale;
        assert(q * scale <= -d < q * scale + scale) by (nonlinear_arith)
            requires
                scale > 0,
                -d > 0,
                q == (-d) / scale,
        ;
        if d % scale == 0 {
            lemma_fundamental_div_mod(d, scale);
            let k = -(d / scale);
            assert(-d == scale * k) by (nonlinear_arith)
                requires
                    d == scale * (d / scale) + d % scale,
                    d % scale == 0,
                    k == -(d / scale),
            ;
            lemma_div_multiples_vanish(k, scale);
            assert(q * scale == scale * q) by (nonlinear_arith);
        }
        assert((-q) * scale == -(q * scale)) by (nonlinear_arith);
    }
}

/// Taking a logical position into render space at whole-unit resolution and back
/// again misses it by less than one scale step on each axis, and finds it exactly
/// when its offset from the camera is a whole number of render units.
pub proof fn lemma_render_round_trip(p: WorldPosition, camera: WorldPosition, scale: int)
    requires
        scale > 1,
    ensures
        -scale < logical_of_render(render_units(p.x as int, camera.x as int, scale), camera.x as int, scale) - p.x < scale,
        -scale < logical_of_render(render_units(p.y as int, camera.y as int, scale), camera.y as int, scale) - p.y < scale,
        (p.x - camera.x) % scale == 0 && (p.y - camera.y) % scale == 0 ==> {
            &&& logical_of_render(render_units(p.x as int, camera.x as int, scale), camera.x as int, scale) == p.x
            &&& logical_of_render(render_units(p.y as int, camera.y as int, scale), camera.y as int, scale) == p.y
        },
{
    lemma_axis_round_trip(p.x as int, camera.x as int, scale);
    lemma_axis_round_trip(p.y as int, camera.y as int, scale);
}

} // verus!
