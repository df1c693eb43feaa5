//! Per-primitive vertex batching.
//!
//! Every drawing operation produces one flat, interleaved vertex stream
//! `[x, y, r, g, b, a, x, y, r, g, b, a, ...]` and splits it into a
//! position-only array and a color-only array, preserving the per-vertex
//! correspondence by index.  A circle is batched as a triangle fan whose
//! first vertex is the center and whose boundary closes exactly on itself.

use vstd::prelude::*;
use vstd::arithmetic::div_mod::{
    lemma_div_is_ordered, lemma_div_multiples_vanish, lemma_fundamental_div_mod_converse,
};
use crate::fx::{UNIT, MAX_COORD, fx_mul, mul_fx};
use crate::transform::Transform;

verus! {

/// How the GPU interprets a vertex stream: consecutive pairs as independent
/// segments, or all triangles sharing the first vertex.
#[derive(Clone, Copy, PartialEq, Eq, Structural, Debug)]
pub enum PrimitiveKind {
    Lines,
    TriangleFan,
}

/// Straight (non-premultiplied) RGBA, each channel a fixed-point value
/// nominally in `[0, UNIT]`.
#[derive(Clone, Copy, PartialEq, Eq, Structural, Debug)]
pub struct Color {
    pub r: i64,
    pub g: i64,
    pub b: i64,
    pub a: i64,
}

impl Color {
    /// Channels within the nominal `[0, 1]` band; keeps derived colors (the
    /// minor grid shade) free of overflow.
    pub open spec fn wf(self) -> bool {
        0 <= self.r <= UNIT && 0 <= self.g <= UNIT && 0 <= self.b <= UNIT && 0 <= self.a
            <= UNIT
    }
}

/// One fully batched draw request: the split arrays, the primitive kind, the
/// transform and viewport under which the host must rasterize it, and an
/// optional line-width hint in pixels.
pub struct DrawCall {
    pub kind: PrimitiveKind,
    pub positions: Vec<i64>,
    pub colors: Vec<i64>,
    pub transform: Transform,
    pub width: u32,
    pub height: u32,
    pub line_width: Option<u32>,
}

/// The position entries of an interleaved stream: two of every six values,
/// in vertex order.
pub open spec fn positions_of(s: Seq<i64>) -> Seq<i64> {
    Seq::new((s.len() / 6) * 2, |k: int| s[6 * (k / 2) + (k % 2)])
}

/// The color entries of an interleaved stream: four of every six values, in
/// vertex order.
pub open spec fn colors_of(s: Seq<i64>) -> Seq<i64> {
    Seq::new((s.len() / 6) * 4, |k: int| s[6 * (k / 4) + 2 + (k % 4)])
}

/// Splits an interleaved position-and-color stream into a position-only and
/// a color-only array, index-aligned vertex by vertex.
pub fn split_stream(stream: &Vec<i64>) -> (out: (Vec<i64>, Vec<i64>))
    requires
        stream@.len() % 6 == 0,
    ensures
        out.0@ == positions_of(stream@),
        out.1@ == colors_of(stream@),
{
    let n = stream.len() / 6;
    proof {
        vstd::arithmetic::div_mod::lemma_fundamental_div_mod(stream@.len() as int, 6);
        assert(stream@.len() == 6 * n);
    }
    let mut positions: Vec<i64> = Vec::new();
    let mut colors: Vec<i64> = Vec::new();
    let mut v: usize = 0;
    while v < n
        invariant
            v <= n,
            6 * n == stream@.len(),
            stream@.len() <= usize::MAX,
            positions@.len() == 2 * v,
            colors@.len() == 4 * v,
            forall|k: int| 0 <= k < 2 * v ==> positions@[k] == stream@[6 * (k / 2) + (k % 2)],
            forall|k: int| 0 <= k < 4 * v ==> colors@[k] == stream@[6 * (k / 4) + 2 + (k % 4)],
        decreases n - v,
    {
        positions.push(stream[6 * v]);
        positions.push(stream[6 * v + 1]);
        colors.push(stream[6 * v + 2]);
        colors.push(stream[6 * v + 3]);
        colors.push(stream[6 * v + 4]);
        colors.push(stream[6 * v + 5]);
        proof {
            assert forall|k: int| 0 <= k < 2 * (v + 1) implies positions@[k] == stream@[6 * (k / 2)
                + (k % 2)] by {
                if k >= 2 * v {
                    assert(k / 2 == v && (k == 2 * v ==> k % 2 == 0) && (k == 2 * v + 1 ==> k % 2
                        == 1));
                }
            }
            assert forall|k: int| 0 <= k < 4 * (v + 1) implies colors@[k] == stream@[6 * (k / 4) + 2
                + (k % 4)] by {
                if k >= 4 * v {
                    assert(k / 4 == v);
                }
            }
        }
        v = v + 1;
    }
    proof {
        assert(positions@ =~= positions_of(stream@));
        assert(colors@ =~= colors_of(stream@));
    }
    (positions, colors)
}

/// The effective segment count of a circle request: a degenerate count of
/// zero is clamped up to three rather than rejected; any positive count is
/// taken as given, so the fan has exactly `segments + 2` vertices.
pub open spec fn effective_segments(segments: u32) -> int {
    if segments == 0 {
        3
    } else {
        segments as int
    }
}

/// Scaling a direction component no larger than one whole unit cannot grow
/// the radius.
proof fn lemma_unit_direction_bound(r: int, d: int)
    requires
        0 <= r,
        -UNIT <= d <= UNIT,
    ensures
        -r <= fx_mul(r, d) <= r,
{
    assert(r * d <= UNIT as int * r && UNIT as int * (-r) <= r * d) by (nonlinear_arith)
        requires
            0 <= r,
            -UNIT <= d <= UNIT,
    ;
    lemma_div_is_ordered(r * d, UNIT as int * r, UNIT as int);
    lemma_div_is_ordered(UNIT as int * (-r), r * d, UNIT as int);
    lemma_div_multiples_vanish(r, UNIT as int);
    lemma_div_multiples_vanish(-r, UNIT as int);
}

/// The value at offset `k` of the interleaved circle-fan stream of a
/// circle: vertex `k / 6`, component `k % 6`.  Vertex `0` is the center
/// `(cx, cy)`; vertex `v >= 1` is the boundary point displaced from the
/// center along `ring[(v - 1) % eff]`, so the closing vertex (`v == eff + 1`)
/// coincides with the first boundary vertex.  Components `2..6` are the
/// color channels, shared by every vertex.
pub open spec fn fan_entry(
    cx: int,
    cy: int,
    radius: int,
    color: Color,
    eff: int,
    ring: Seq<(i64, i64)>,
    k: int,
) -> int {
    let v = k / 6;
    let c = k % 6;
    if c == 0 {
        if v == 0 {
            cx
        } else {
            cx + fx_mul(radius, ring[(v - 1) % eff].0 as int)
        }
    } else if c == 1 {
        if v == 0 {
            cy
        } else {
            cy + fx_mul(radius, ring[(v - 1) % eff].1 as int)
        }
    } else if c == 2 {
        color.r as int
    } else if c == 3 {
        color.g as int
    } else if c == 4 {
        color.b as int
    } else {
        color.a as int
    }
}

/// Entry `k` of the position-only array of a circle fan: component `k % 2`
/// of vertex `k / 2`.  Vertex `0` is the center; vertex `v >= 1` is displaced
/// from the center along `ring[(v - 1) % eff]`.
pub open spec fn fan_position(
    cx: int,
    cy: int,
    radius: int,
    eff: int,
    ring: Seq<(i64, i64)>,
    k: int,
) -> int {
    let v = k / 2;
    if k % 2 == 0 {
        if v == 0 {
            cx
        } else {
            cx + fx_mul(radius, ring[(v - 1) % eff].0 as int)
        }
    } else {
        if v == 0 {
            cy
        } else {
            cy + fx_mul(radius, ring[(v - 1) % eff].1 as int)
        }
    }
}

/// Builds the interleaved triangle-fan stream of a circle: the center vertex
/// first, then `effective_segments(segments) + 1` boundary vertices at the
/// given unit directions, the last coincident with the first so that the fan
/// closes exactly.  `ring[i]` is the fixed-point unit direction at angle
/// `i / segments` of a full turn; the closing vertex reuses `ring[0]`.
pub fn circle_fan_stream(
    cx: i64,
    cy: i64,
    radius_world: i64,
    color: Color,
    segments: u32,
    ring: &Vec<(i64, i64)>,
) -> (pts: Vec<i64>)
    requires
        -MAX_COORD <= cx <= MAX_COORD,
        -MAX_COORD <= cy <= MAX_COORD,
        0 <= radius_world <= MAX_COORD,
        ring@.len() == effective_segments(segments),
        6 * (effective_segments(segments) + 2) <= usize::MAX,
        forall|i: int|
            0 <= i < ring@.len() ==> -UNIT <= #[trigger] ring@[i].0 <= UNIT && -UNIT <= ring@[i].1
                <= UNIT,
    ensures
        pts@.len() == 6 * (effective_segments(segments) + 2),
        forall|k: int|
            0 <= k < pts@.len() ==> #[trigger] pts@[k] == fan_entry(
                cx as int,
                cy as int,
                radius_world as int,
                color,
                effective_segments(segments),
                ring@,
                k,
            ),
        pts@[0] == cx && pts@[1] == cy,
        pts@[6 * (effective_segments(segments) + 1)] == pts@[6],
        pts@[6 * (effective_segments(segments) + 1) + 1] == pts@[7],
{
    let seg: usize = if segments == 0 {
        3
    } else {
        segments as usize
    };
    let ghost eff = effective_segments(segments);
    let mut pts: Vec<i64> = Vec::new();
    pts.push(cx);
    pts.push(cy);
    pts.push(color.r);
    pts.push(color.g);
    pts.push(color.b);
    pts.push(color.a);
    proof {
        assert forall|k: int| 0 <= k < 6 implies #[trigger] pts@[k] == fan_entry(
            cx as int,
            cy as int,
            radius_world as int,
            color,
            eff,
            ring@,
            k,
        ) by {
            lemma_fundamental_div_mod_converse(k, 6, 0, k);
        }
    }
    let mut i: usize = 0;
    while i <= seg
        invariant
            0 <= i <= seg + 1,
            1 <= seg,
            6 * (seg + 2) <= usize::MAX,
            seg == effective_segments(segments),
            eff == effective_segments(segments),
            -MAX_COORD <= cx <= MAX_COORD,
            -MAX_COORD <= cy <= MAX_COORD,
            0 <= radius_world <= MAX_COORD,
            ring@.len() == seg,
            forall|j: int|
                0 <= j < ring@.len() ==> -UNIT <= #[trigger] ring@[j].0 <= UNIT && -UNIT
                    <= ring@[j].1 <= UNIT,
            pts@.len() == 6 * (i + 1),
            forall|k: int|
                0 <= k < pts@.len() ==> #[trigger] pts@[k] == fan_entry(
                    cx as int,
                    cy as int,
                    radius_world as int,
                    color,
                    eff,
                    ring@,
                    k,
                ),
        decreases seg + 1 - i,
    {
        let idx = i % seg;
        let dir = ring[idx];
        proof {
            lemma_unit_direction_bound(radius_world as int, dir.0 as int);
            lemma_unit_direction_bound(radius_world as int, dir.1 as int);
        }
        let dx = mul_fx(radius_world, dir.0);
        let dy = mul_fx(radius_world, dir.1);
        let vx = cx + dx;
        let vy = cy + dy;
        let ghost snapshot = pts@;
        pts.push(vx);
        pts.push(vy);
        pts.push(color.r);
        pts.push(color.g);
        pts.push(color.b);
        pts.push(color.a);
        proof {
            let base = 6 * (i as int + 1);
            let tail = seq![vx, vy, color.r, color.g, color.b, color.a];
            assert(pts@ =~= snapshot + tail);
            assert forall|k: int| 0 <= k < pts@.len() implies #[trigger] pts@[k] == fan_entry(
                cx as int,
                cy as int,
                radius_world as int,
                color,
                eff,
                ring@,
                k,
            ) by {
                if k < base {
                    assert(pts@[k] == snapshot[k]);
                } else {
                    lemma_fundamental_div_mod_converse(k, 6, i as int + 1, k - base);
                    assert(pts@[k] == tail[k - base]);
                    assert((i as int + 1 - 1) % (seg as int) == idx as int);
                }
            }
        }
        i = i + 1;
    }
    proof {
        lemma_fundamental_div_mod_converse(6 * (eff + 1), 6, eff + 1, 0);
        lemma_fundamental_div_mod_converse(6 * (eff + 1) + 1, 6, eff + 1, 1);
        lemma_fundamental_div_mod_converse(6, 6, 1, 0);
        lemma_fundamental_div_mod_converse(7, 6, 1, 1);
        assert(eff % eff == 0 && 0int % eff == 0);
        assert(pts@[6 * (eff + 1)] == pts@[6] && pts@[6 * (eff + 1) + 1] == pts@[7]);
    }
    pts
}

} // verus!
