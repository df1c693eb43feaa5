//! The batched renderer: primitive drawing operations over the current
//! transform and viewport.
//!
//! The renderer retains no geometry across calls.  Every drawing operation
//! batches its request into one `DrawCall` (the grid into up to two: minor
//! lines under major ones) carrying the arrays, the transform and the
//! viewport the host GPU binding must rasterize it with; the caller executes
//! the calls in order.

use vstd::prelude::*;
use vstd::arithmetic::div_mod::lemma_fundamental_div_mod_converse;
use crate::fx::{UNIT, MAX_COORD};
use crate::transform::{Transform, world_radius};
use crate::batch::{
    PrimitiveKind, Color, DrawCall, positions_of, colors_of, split_stream, circle_fan_stream,
    fan_entry, fan_position, effective_segments,
};
use crate::grid::{MAX_GRID_SCALE, grid_stream_spec, minor_shade, minor_color_of, build_grid_stream};

verus! {

/// Fixed-point alpha of the base grid color (0.3 of a whole unit).
pub const GRID_ALPHA: i64 = 30_000_000;

/// A stroke style a caller can describe a line with: color and an optional
/// dash pattern, lengths in fixed-point world units.
#[derive(Clone, Copy, PartialEq, Eq, Structural, Debug)]
pub struct LineStyle {
    pub r: i64,
    pub g: i64,
    pub b: i64,
    pub a: i64,
    pub dashed: bool,
    pub dash_length: i64,
    pub gap_length: i64,
}

/// The renderer: the current world transform, the viewport size in pixels,
/// the style configuration, and a running count of issued draw calls.
pub struct Renderer {
    pub transform: Transform,
    pub width: u32,
    pub height: u32,
    pub draw_call_count: u64,
    pub clear_color: Color,
    pub grid_color: Color,
}

impl Renderer {
    /// The zoom factor is positive and the configured colors lie in the
    /// nominal channel band.
    pub open spec fn wf(self) -> bool {
        self.transform.wf() && self.clear_color.wf() && self.grid_color.wf()
    }

    /// Everything but the draw-call count agrees between the two states: a
    /// drawing operation mutates nothing else, and in particular the grid's
    /// transform override is always restored.
    pub open spec fn same_but_count(self, other: Renderer) -> bool {
        self.transform == other.transform && self.width == other.width && self.height
            == other.height && self.clear_color == other.clear_color && self.grid_color
            == other.grid_color
    }

    /// A fresh renderer over a surface of the given pixel size: identity
    /// transform, no draw calls issued, white clear color and a translucent
    /// black grid color.
    pub fn new(width: u32, height: u32) -> (r: Renderer)
        ensures
            r.transform == (Transform { offset_x: 0, offset_y: 0, scale: UNIT }),
            r.width == width,
            r.height == height,
            r.draw_call_count == 0,
            r.clear_color == (Color { r: UNIT, g: UNIT, b: UNIT, a: UNIT }),
            r.grid_color == (Color { r: 0, g: 0, b: 0, a: GRID_ALPHA }),
            r.wf(),
    {
        Renderer {
            transform: Transform { offset_x: 0, offset_y: 0, scale: UNIT },
            width,
            height,
            draw_call_count: 0,
            clear_color: Color { r: UNIT, g: UNIT, b: UNIT, a: UNIT },
            grid_color: Color { r: 0, g: 0, b: 0, a: GRID_ALPHA },
        }
    }

    /// Records a new viewport size (call when the surface size changes).
    pub fn resize(&mut self, width: u32, height: u32)
        ensures
            final(self).width == width,
            final(self).height == height,
            final(self).transform == old(self).transform,
            final(self).draw_call_count == old(self).draw_call_count,
            final(self).clear_color == old(self).clear_color,
            final(self).grid_color == old(self).grid_color,
    {
        self.width = width;
        self.height = height;
    }

    /// The fill color the host must clear the surface with.
    pub fn clear(&self) -> (c: Color)
        ensures
            c == self.clear_color,
    {
        self.clear_color
    }

    /// Batches an already-interleaved, already-paired vertex stream
    /// `[x, y, r, g, b, a, ...]` as one disjoint line-list draw call under
    /// the current transform, splitting it into index-aligned position and
    /// color arrays, and echoes the stream back unchanged.  Empty input
    /// issues no draw call and is no error.
    pub fn draw_lines(&mut self, points_with_color: &Vec<i64>) -> (r: (Vec<i64>, Option<DrawCall>))
        requires
            old(self).wf(),
            points_with_color@.len() % 6 == 0,
            old(self).draw_call_count < u64::MAX,
        ensures
            final(self).wf(),
            old(self).same_but_count(*final(self)),
            r.0@ == points_with_color@,
            points_with_color@.len() == 0 ==> r.1 is None && final(self).draw_call_count == old(
                self,
            ).draw_call_count,
            points_with_color@.len() > 0 ==> final(self).draw_call_count == old(
                self,
            ).draw_call_count + 1 && (r.1 matches Some(call) && call.kind
                == PrimitiveKind::Lines && call.positions@ == positions_of(points_with_color@)
                && call.colors@ == colors_of(points_with_color@) && call.transform == old(
                self,
            ).transform && call.width == old(self).width && call.height == old(self).height
                && call.line_width is None),
    {
        let mut echo: Vec<i64> = Vec::new();
        let mut k: usize = 0;
        let n = points_with_color.len();
        while k < n
            invariant
                k <= n,
                n == points_with_color@.len(),
                echo@.len() == k,
                forall|j: int| 0 <= j < k ==> echo@[j] == points_with_color@[j],
            decreases n - k,
        {
            echo.push(points_with_color[k]);
            k = k + 1;
        }
        proof {
            assert(echo@ =~= points_with_color@);
        }
        if points_with_color.len() == 0 {
            return (echo, None);
        }
        let (positions, colors) = split_stream(points_with_color);
        self.draw_call_count = self.draw_call_count + 1;
        let call = DrawCall {
            kind: PrimitiveKind::Lines,
            positions,
            colors,
            transform: self.transform,
            width: self.width,
            height: self.height,
            line_width: None,
        };
        (echo, Some(call))
    }

    /// Emits exactly one two-vertex line-list draw call for the segment from
    /// `(x1, y1)` to `(x2, y2)`, both endpoints sharing the color; a
    /// convenience wrapper over the raw line-list operation.
    pub fn draw_line(&mut self, x1: i64, y1: i64, x2: i64, y2: i64, r: i64, g: i64, b: i64, a: i64)
        -> (call: DrawCall)
        requires
            old(self).wf(),
            old(self).draw_call_count < u64::MAX,
        ensures
            final(self).wf(),
            old(self).same_but_count(*final(self)),
            final(self).draw_call_count == old(self).draw_call_count + 1,
            call.kind == PrimitiveKind::Lines,
            call.positions@ == seq![x1, y1, x2, y2],
            call.colors@ == seq![r, g, b, a, r, g, b, a],
            call.transform == old(self).transform,
            call.width == old(self).width,
            call.height == old(self).height,
            call.line_width is None,
    {
        let mut points: Vec<i64> = Vec::new();
        points.push(x1);
        points.push(y1);
        points.push(r);
        points.push(g);
        points.push(b);
        points.push(a);
        points.push(x2);
        points.push(y2);
        points.push(r);
        points.push(g);
        points.push(b);
        points.push(a);
        let (_echo, call_opt) = self.draw_lines(&points);
        match call_opt {
            Some(call) => {
                proof {
                    assert(call.positions@ =~= seq![x1, y1, x2, y2]);
                    assert(call.colors@ =~= seq![r, g, b, a, r, g, b, a]);
                }
                call
            },
            None => {
                proof {
                    assert(false);
                }
                DrawCall {
                    kind: PrimitiveKind::Lines,
                    positions: Vec::new(),
                    colors: Vec::new(),
                    transform: self.transform,
                    width: self.width,
                    height: self.height,
                    line_width: None,
                }
            },
        }
    }

    /// Batches a circle as one triangle-fan draw call: the center vertex,
    /// then `segments + 1` boundary vertices (a count of zero is clamped
    /// to three), the last coincident with the first so the fan closes
    /// exactly.  With `screen_space` the radius is a fixed pixel size and is
    /// divided by the zoom factor; otherwise it is a world-space size.
    /// `ring[i]` supplies the fixed-point unit direction at angle
    /// `i / segments` of a full turn.
    pub fn draw_circle(
        &mut self,
        cx: i64,
        cy: i64,
        radius: i64,
        r: i64,
        g: i64,
        b: i64,
        a: i64,
        segments: u32,
        screen_space: bool,
        ring: &Vec<(i64, i64)>,
    ) -> (call: DrawCall)
        requires
            old(self).wf(),
            old(self).draw_call_count < u64::MAX,
            -MAX_COORD <= cx <= MAX_COORD,
            -MAX_COORD <= cy <= MAX_COORD,
            0 <= radius <= MAX_COORD,
            screen_space ==> world_radius(radius as int, old(self).transform.scale as int)
                <= MAX_COORD,
            ring@.len() == effective_segments(segments),
            6 * (effective_segments(segments) + 2) <= usize::MAX,
            forall|i: int|
                0 <= i < ring@.len() ==> -UNIT <= #[trigger] ring@[i].0 <= UNIT && -UNIT
                    <= ring@[i].1 <= UNIT,
        ensures
            final(self).wf(),
            old(self).same_but_count(*final(self)),
            final(self).draw_call_count == old(self).draw_call_count + 1,
            call.kind == PrimitiveKind::TriangleFan,
            call.transform == old(self).transform,
            call.width == old(self).width,
            call.height == old(self).height,
            call.line_width is None,
            ({
                let rw = if screen_space {
                    world_radius(radius as int, old(self).transform.scale as int)
                } else {
                    radius as int
                };
                let eff = effective_segments(segments);
                &&& call.positions@.len() == 2 * (eff + 2)
                &&& call.colors@.len() == 4 * (eff + 2)
                &&& call.positions@[0] == cx && call.positions@[1] == cy
                &&& forall|k: int|
                    0 <= k < call.positions@.len() ==> #[trigger] call.positions@[k]
                        == fan_position(cx as int, cy as int, rw, eff, ring@, k)
                &&& forall|k: int|
                    0 <= k < call.colors@.len() ==> #[trigger] call.colors@[k] == (if k % 4 == 0 {
                        r
                    } else if k % 4 == 1 {
                        g
                    } else if k % 4 == 2 {
                        b
                    } else {
                        a
                    })
                &&& call.positions@[2 * (eff + 1)] == call.positions@[2]
                &&& call.positions@[2 * (eff + 1) + 1] == call.positions@[3]
            }),
    {
        let radius_world = if screen_space {
            self.transform.screen_to_world_radius(radius)
        } else {
            radius
        };
        let color = Color { r, g, b, a };
        let stream = circle_fan_stream(cx, cy, radius_world, color, segments, ring);
        proof {
            let eff = effective_segments(segments);
            lemma_fundamental_div_mod_converse(6 * (eff + 2), 6, eff + 2, 0);
        }
        let (positions, colors) = split_stream(&stream);
        self.draw_call_count = self.draw_call_count + 1;
        let call = DrawCall {
            kind: PrimitiveKind::TriangleFan,
            positions,
            colors,
            transform: self.transform,
            width: self.width,
            height: self.height,
            line_width: None,
        };
        proof {
            let eff = effective_segments(segments);
            let rw = radius_world as int;
            let s = stream@;
            assert(s.len() / 6 == eff + 2);
            assert forall|k: int| 0 <= k < call.positions@.len() implies #[trigger] call.positions@[k]
                == fan_position(cx as int, cy as int, rw, eff, ring@, k) by {
                let idx = 6 * (k / 2) + (k % 2);
                assert(call.positions@[k] == s[idx]);
                assert(0 <= idx < s.len());
                lemma_fundamental_div_mod_converse(idx, 6, k / 2, k % 2);
                assert(s[idx] == fan_entry(cx as int, cy as int, rw, color, eff, ring@, idx));
            }
            assert forall|k: int| 0 <= k < call.colors@.len() implies #[trigger] call.colors@[k]
                == (if k % 4 == 0 {
                    r
                } else if k % 4 == 1 {
                    g
                } else if k % 4 == 2 {
                    b
                } else {
                    a
                }) by {
                let idx = 6 * (k / 4) + 2 + (k % 4);
                assert(call.colors@[k] == s[idx]);
                assert(0 <= idx < s.len());
                lemma_fundamental_div_mod_converse(idx, 6, k / 4, 2 + (k % 4));
                assert(s[idx] == fan_entry(cx as int, cy as int, rw, color, eff, ring@, idx));
            }
            assert(call.positions@[0] == s[0] && call.positions@[1] == s[1]) by {
                lemma_fundamental_div_mod_converse(0, 6, 0, 0);
                lemma_fundamental_div_mod_converse(1, 6, 0, 1);
            }
            assert(call.positions@[2 * (eff + 1)] == s[6 * (eff + 1)] && call.positions@[2 * (eff
                + 1) + 1] == s[6 * (eff + 1) + 1]) by {
                lemma_fundamental_div_mod_converse(2 * (eff + 1), 2, eff + 1, 0);
                lemma_fundamental_div_mod_converse(2 * (eff + 1) + 1, 2, eff + 1, 1);
            }
            assert(call.positions@[2] == s[6] && call.positions@[3] == s[7]) by {
                lemma_fundamental_div_mod_converse(2, 6, 0, 2);
            }
        }
        call
    }

    /// Draws the adaptive background grid under the given override transform
    /// (the renderer's own transform is untouched): picks the spacing for
    /// the zoom, covers the visible world extents with vertical and
    /// horizontal lines, and returns up to two line-list draw calls — the
    /// minor lines first with a thin width hint, then the major lines with a
    /// thicker one, each skipped entirely when empty.
    pub fn draw_grid(&mut self, offset_x: i64, offset_y: i64, scale: i64) -> (calls: Vec<DrawCall>)
        requires
            old(self).wf(),
            1 <= scale <= MAX_GRID_SCALE,
            -MAX_COORD <= offset_x <= MAX_COORD,
            -MAX_COORD <= offset_y <= MAX_COORD,
            (old(self).width as int * UNIT * UNIT) / (scale as int) <= MAX_COORD,
            (old(self).height as int * UNIT * UNIT) / (scale as int) <= MAX_COORD,
            old(self).draw_call_count < u64::MAX - 1,
        ensures
            final(self).wf(),
            old(self).same_but_count(*final(self)),
            final(self).draw_call_count == old(self).draw_call_count + calls@.len(),
            ({
                let minor = grid_stream_spec(
                    offset_x as int,
                    offset_y as int,
                    scale as int,
                    old(self).width as int,
                    old(self).height as int,
                    minor_shade(old(self).grid_color),
                    false,
                );
                let major = grid_stream_spec(
                    offset_x as int,
                    offset_y as int,
                    scale as int,
                    old(self).width as int,
                    old(self).height as int,
                    old(self).grid_color,
                    true,
                );
                let t = Transform { offset_x, offset_y, scale };
                &&& calls@.len() == (if minor.len() > 0 {
                    1int
                } else {
                    0int
                }) + (if major.len() > 0 {
                    1int
                } else {
                    0int
                })
                &&& (minor.len() > 0 ==> {
                    let c = calls@[0];
                    &&& c.kind == PrimitiveKind::Lines
                    &&& c.line_width == Some(1u32)
                    &&& c.transform == t
                    &&& c.width == old(self).width && c.height == old(self).height
                    &&& c.positions@ == positions_of(minor)
                    &&& c.colors@ == colors_of(minor)
                })
                &&& (major.len() > 0 ==> {
                    let c = calls@[if minor.len() > 0 {
                        1int
                    } else {
                        0int
                    }];
                    &&& c.kind == PrimitiveKind::Lines
                    &&& c.line_width == Some(2u32)
                    &&& c.transform == t
                    &&& c.width == old(self).width && c.height == old(self).height
                    &&& c.positions@ == positions_of(major)
                    &&& c.colors@ == colors_of(major)
                })
            }),
    {
        let minor_col = minor_color_of(self.grid_color);
        let minor = build_grid_stream(
            offset_x,
            offset_y,
            scale,
            self.width,
            self.height,
            minor_col,
            false,
        );
        let major = build_grid_stream(
            offset_x,
            offset_y,
            scale,
            self.width,
            self.height,
            self.grid_color,
            true,
        );
        let t = Transform { offset_x, offset_y, scale };
        let mut calls: Vec<DrawCall> = Vec::new();
        if minor.len() > 0 {
            let (positions, colors) = split_stream(&minor);
            calls.push(
                DrawCall {
                    kind: PrimitiveKind::Lines,
                    positions,
                    colors,
                    transform: t,
                    width: self.width,
                    height: self.height,
                    line_width: Some(1),
                },
            );
            self.draw_call_count = self.draw_call_count + 1;
        }
        if major.len() > 0 {
            let (positions, colors) = split_stream(&major);
            calls.push(
                DrawCall {
                    kind: PrimitiveKind::Lines,
                    positions,
                    colors,
                    transform: t,
                    width: self.width,
                    height: self.height,
                    line_width: Some(2),
                },
            );
            self.draw_call_count = self.draw_call_count + 1;
        }
        calls
    }
}

} // verus!
