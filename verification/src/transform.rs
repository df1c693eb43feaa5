//! The world-to-clip-space affine transform: pan offset plus uniform zoom.
//!
//! For a world point `p`, viewport resolution `(w, h)` in pixels and a
//! transform `(offset_x, offset_y, scale)`, the clip-space point is
//!
//! ```text
//! world = (p + offset) * scale          // pixels from the viewport origin
//! zero_to_one = world / (w, h)
//! clip = zero_to_one * 2 - 1            // and the y axis is flipped
//! ```
//!
//! applied identically to every vertex of every primitive.  The inverse use
//! is converting a screen-space radius to world units by dividing by `scale`.

use vstd::prelude::*;
use vstd::arithmetic::div_mod::{lemma_div_denominator, lemma_div_pos_is_pos};
use vstd::arithmetic::mul::lemma_mul_nonnegative;
use crate::fx::{UNIT, MAX_COORD, fx_div, lemma_div_shrinks, floor_div_wide, div_fx};

verus! {

/// Pan offset and uniform zoom, in fixed-point units.  `scale` is the number
/// of pixels (times `UNIT`) that one world unit spans on screen.
#[derive(Clone, Copy, PartialEq, Eq, Structural, Debug)]
pub struct Transform {
    pub offset_x: i64,
    pub offset_y: i64,
    pub scale: i64,
}

/// One clip-space coordinate before the y flip: the world point is offset,
/// scaled to pixels, normalized by the resolution and mapped to `[-1, 1]`
/// (times `UNIT`), each division rounding toward negative infinity.
pub open spec fn clip_coord(p: int, offset: int, scale: int, res: int) -> int {
    2 * (((p + offset) * scale / (UNIT as int)) / res) - UNIT
}

/// The world-unit radius for a screen-space (pixel) radius: `radius / scale`.
pub open spec fn world_radius(radius: int, scale: int) -> int {
    fx_div(radius, scale)
}

impl Transform {
    /// A zoom factor of zero or less leaves the radius conversion undefined,
    /// so every drawing operation demands a positive `scale`.
    pub open spec fn wf(self) -> bool {
        0 < self.scale
    }

    /// The identity transform: no pan, one world unit per pixel.
    pub fn identity() -> (t: Transform)
        ensures
            t.offset_x == 0,
            t.offset_y == 0,
            t.scale == UNIT,
            t.wf(),
    {
        Transform { offset_x: 0, offset_y: 0, scale: UNIT }
    }

    /// Maps a world point to clip space under this transform and the given
    /// viewport resolution; the y axis is flipped (screen-down, clip-up).
    pub fn apply(&self, px: i64, py: i64, width: u32, height: u32) -> (c: (i64, i64))
        requires
            self.wf(),
            width >= 1,
            height >= 1,
            -MAX_COORD <= px + self.offset_x <= MAX_COORD,
            -MAX_COORD <= py + self.offset_y <= MAX_COORD,
            -MAX_COORD <= clip_coord(px as int, self.offset_x as int, self.scale as int, width as int) <= MAX_COORD,
            -MAX_COORD <= clip_coord(py as int, self.offset_y as int, self.scale as int, height as int) <= MAX_COORD,
        ensures
            c.0 == clip_coord(px as int, self.offset_x as int, self.scale as int, width as int),
            c.1 == -clip_coord(py as int, self.offset_y as int, self.scale as int, height as int),
    {
        let cx = clip_component(px, self.offset_x, self.scale, width);
        let cy = clip_component(py, self.offset_y, self.scale, height);
        (cx, -cy)
    }

    /// Converts a screen-space (pixel) radius to world units, so a stroke
    /// keeps its on-screen size under zoom.
    pub fn screen_to_world_radius(&self, radius: i64) -> (r: i64)
        requires
            self.wf(),
            0 <= radius,
            world_radius(radius as int, self.scale as int) <= i64::MAX,
        ensures
            r == world_radius(radius as int, self.scale as int),
            0 <= r,
    {
        proof {
            lemma_mul_nonnegative(radius as int, UNIT as int);
            lemma_div_pos_is_pos(radius as int * UNIT as int, self.scale as int);
        }
        div_fx(radius, self.scale)
    }
}

/// One component of the forward transform, computed in 128-bit intermediates.
fn clip_component(p: i64, offset: i64, scale: i64, res: u32) -> (c: i64)
    requires
        0 < scale,
        res >= 1,
        -MAX_COORD <= p + offset <= MAX_COORD,
        -MAX_COORD <= clip_coord(p as int, offset as int, scale as int, res as int) <= MAX_COORD,
    ensures
        c == clip_coord(p as int, offset as int, scale as int, res as int),
{
    let shifted: i128 = p as i128 + offset as i128;
    proof {
        assert(-10_000_000_000_000_000_000_000_000_000_000_000_000
            <= shifted as int * scale as int
            <= 10_000_000_000_000_000_000_000_000_000_000_000_000) by (nonlinear_arith)
            requires
                -1_000_000_000_000_000_000 <= shifted as int <= 1_000_000_000_000_000_000,
                0 < scale as int <= 0x7fff_ffff_ffff_ffff,
        ;
    }
    let world_px: i128 = shifted * (scale as i128);
    let world = floor_div_wide(world_px, UNIT as i128);
    let zero_to_one = floor_div_wide(world, res as i128);
    proof {
        lemma_div_shrinks(world_px as int, UNIT as int);
        lemma_div_shrinks(world as int, res as int);
    }
    let c_wide: i128 = 2 * zero_to_one - UNIT as i128;
    c_wide as i64
}

/// The forward transform is a pure function of the point, the resolution and
/// the transform's three fields: mutating offset or scale afterwards cannot
/// change an application already made, and two transforms with equal fields
/// map every point alike regardless of call history.
pub proof fn lemma_transform_application_is_pure(t1: Transform, t2: Transform, p: int, res: int)
    requires
        t1.offset_x == t2.offset_x,
        t1.offset_y == t2.offset_y,
        t1.scale == t2.scale,
    ensures
        clip_coord(p, t1.offset_x as int, t1.scale as int, res)
            == clip_coord(p, t2.offset_x as int, t2.scale as int, res),
        clip_coord(p, t1.offset_y as int, t1.scale as int, res)
            == clip_coord(p, t2.offset_y as int, t2.scale as int, res),
        world_radius(p, t1.scale as int) == world_radius(p, t2.scale as int),
{
}

/// Doubling the zoom factor exactly halves the world-unit radius computed
/// for a fixed screen-space radius, so strokes stay visually constant.
pub proof fn lemma_screen_radius_halves_under_double_zoom(radius: int, scale: int)
    requires
        0 <= radius,
        0 < scale,
    ensures
        world_radius(radius, 2 * scale) == world_radius(radius, scale) / 2,
{
    lemma_mul_nonnegative(radius, UNIT as int);
    lemma_div_denominator(radius * UNIT as int, scale, 2);
    assert(scale * 2 == 2 * scale);
}

} // verus!
