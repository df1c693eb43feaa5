//! The adaptive background grid.
//!
//! `draw_grid` picks a "nice" world-space line interval from the candidates
//! `{1, 2, 5} * 10^e` (exponents -8 to 8) so that the on-screen spacing stays
//! inside the pixel band `[30, 100]` at any zoom, falling back to an interval
//! of about 50 pixels when the zoom is too extreme for any candidate.  Grid
//! lines then cover the visible world extents; every tenth index is a major
//! line in the base color, the rest are minor lines at 0.7x alpha.

use vstd::prelude::*;
use vstd::arithmetic::div_mod::{
    lemma_div_by_self, lemma_div_is_ordered, lemma_div_is_ordered_by_denominator,
    lemma_div_pos_is_pos, lemma_fundamental_div_mod_converse,
};
use vstd::arithmetic::mul::{lemma_mul_inequality, lemma_mul_nonnegative};
use crate::fx::{
    UNIT, MAX_COORD, ceil_div_spec, floor_div, ceil_div, euclid_rem, mul_wide, floor_div_wide,
    lemma_floor_div_mul_bounds, lemma_ceil_div_mul_bounds,
};
use crate::batch::Color;

verus! {

/// Smallest on-screen grid interval the search accepts, in pixels.
pub const MIN_SPACING_PIXELS: i64 = 30;

/// Largest on-screen grid interval the search accepts, in pixels.
pub const MAX_SPACING_PIXELS: i64 = 100;

/// On-screen interval the fallback spacing guarantees, in pixels.
pub const FALLBACK_SPACING_PIXELS: i64 = 50;

/// `FALLBACK_SPACING_PIXELS` scaled by `UNIT * UNIT`: the fallback spacing is
/// this value divided by the zoom factor.
pub const FALLBACK_SPACING_FIXED: i64 = 500_000_000_000_000_000;

/// Largest zoom factor the grid accepts; beyond it the fallback spacing
/// would round down to zero world units.
pub const MAX_GRID_SCALE: i64 = 500_000_000_000_000_000;

/// Ten to the `e`-th power.
pub open spec fn pow10(e: nat) -> int
    decreases e,
{
    if e == 0 {
        1
    } else {
        10 * pow10((e - 1) as nat)
    }
}

/// The `idx`-th candidate spacing in fixed-point world units: the sequence
/// `{1, 2, 5} * 10^e` for exponents `e` from -8 upward, in increasing order.
/// `10^-8` world units is exactly one fixed-point unit, so candidate 0 is 1.
pub open spec fn candidate(idx: int) -> int {
    let base: int = if idx % 3 == 0 {
        1
    } else if idx % 3 == 1 {
        2
    } else {
        5
    };
    base * pow10((idx / 3) as nat)
}

/// How many candidates the search walks: three bases times the seventeen
/// exponents -8 to 8.
pub const CANDIDATE_COUNT: i64 = 51;

/// Whether spacing `s` keeps the on-screen interval `s * scale` inside the
/// target pixel band (`s` and `scale` both fixed-point, hence `UNIT * UNIT`).
pub open spec fn in_band(s: int, scale: int) -> bool {
    MIN_SPACING_PIXELS * UNIT * UNIT <= s * scale <= MAX_SPACING_PIXELS * UNIT * UNIT
}

/// The least candidate index at or after `k` whose spacing is in the band,
/// or `CANDIDATE_COUNT` when none is.
pub open spec fn first_band_index_from(k: int, scale: int) -> int
    decreases CANDIDATE_COUNT - k,
{
    if k >= CANDIDATE_COUNT {
        CANDIDATE_COUNT as int
    } else if in_band(candidate(k), scale) {
        k
    } else {
        first_band_index_from(k + 1, scale)
    }
}

/// The spacing the search chooses: the first candidate inside the band (the
/// candidates increase, so also the smallest), or the fallback `50 / scale`
/// when none qualifies.
pub open spec fn chosen_spacing(scale: int) -> int {
    let k = first_band_index_from(0, scale);
    if k < CANDIDATE_COUNT {
        candidate(k)
    } else {
        FALLBACK_SPACING_FIXED as int / scale
    }
}

/// Every power of ten is at least one.
proof fn lemma_pow10_pos(e: nat)
    ensures
        1 <= pow10(e),
    decreases e,
{
    if e > 0 {
        lemma_pow10_pos((e - 1) as nat);
    }
}

/// Powers of ten do not decrease with the exponent.
proof fn lemma_pow10_monotone(a: nat, b: nat)
    requires
        a <= b,
    ensures
        pow10(a) <= pow10(b),
    decreases b,
{
    lemma_pow10_pos(a);
    if a < b {
        lemma_pow10_monotone(a, (b - 1) as nat);
        lemma_pow10_pos((b - 1) as nat);
    }
}

/// The concrete value of the largest exponent the search reaches.
proof fn lemma_pow10_16()
    ensures
        pow10(16) == 10_000_000_000_000_000,
{
    reveal_with_fuel(pow10, 18);
}

/// The three candidates of exponent `e` sit at indices `3e`, `3e + 1` and
/// `3e + 2`.
proof fn lemma_candidate_triple(e: int)
    requires
        0 <= e,
    ensures
        candidate(3 * e) == pow10(e as nat),
        candidate(3 * e + 1) == 2 * pow10(e as nat),
        candidate(3 * e + 2) == 5 * pow10(e as nat),
{
    lemma_fundamental_div_mod_converse(3 * e, 3, e, 0);
    lemma_fundamental_div_mod_converse(3 * e + 1, 3, e, 1);
    lemma_fundamental_div_mod_converse(3 * e + 2, 3, e, 2);
}

/// Each candidate spacing is strictly larger than the one before it: the
/// bases 1, 2, 5 increase within an exponent, and 5 * 10^e < 1 * 10^(e+1).
proof fn lemma_candidates_increase(j: int)
    requires
        0 <= j,
    ensures
        candidate(j) < candidate(j + 1),
{
    let q = j / 3;
    let r = j % 3;
    lemma_pow10_pos(q as nat);
    vstd::arithmetic::div_mod::lemma_fundamental_div_mod(j, 3);
    vstd::arithmetic::div_mod::lemma_mod_bound(j, 3);
    lemma_div_pos_is_pos(j, 3);
    if r < 2 {
        lemma_fundamental_div_mod_converse(j + 1, 3, q, r + 1);
    } else {
        lemma_fundamental_div_mod_converse(j + 1, 3, q + 1, 0);
        assert(pow10((q + 1) as nat) == 10 * pow10(q as nat));
    }
}

/// Candidates at larger indices are at least as large.
proof fn lemma_candidate_monotone(a: int, b: int)
    requires
        0 <= a <= b,
    ensures
        candidate(a) <= candidate(b),
    decreases b - a,
{
    if a < b {
        lemma_candidate_monotone(a, b - 1);
        lemma_candidates_increase(b - 1);
    }
}

/// Skipping a rejected prefix does not change which candidate is found.
proof fn lemma_first_band_skip(m: int, scale: int)
    requires
        0 <= m <= CANDIDATE_COUNT,
        forall|j: int| 0 <= j < m ==> !in_band(#[trigger] candidate(j), scale),
    ensures
        first_band_index_from(0, scale) == first_band_index_from(m, scale),
    decreases m,
{
    if m > 0 {
        lemma_first_band_skip(m - 1, scale);
        assert(!in_band(candidate(m - 1), scale));
    }
}

/// The search lands between its starting index and the candidate count, and
/// when it lands on a candidate, that candidate's spacing is in the band.
proof fn lemma_first_band_range(m: int, scale: int)
    requires
        0 <= m <= CANDIDATE_COUNT,
    ensures
        m <= first_band_index_from(m, scale) <= CANDIDATE_COUNT,
        first_band_index_from(m, scale) < CANDIDATE_COUNT ==> in_band(
            candidate(first_band_index_from(m, scale)),
            scale,
        ),
    decreases CANDIDATE_COUNT - m,
{
    if m < CANDIDATE_COUNT && !in_band(candidate(m), scale) {
        lemma_first_band_range(m + 1, scale);
    }
}

/// Every candidate before the one the search lands on is outside the band:
/// the first qualifying candidate wins, and since the candidates increase,
/// it is also the smallest qualifying spacing.
proof fn lemma_first_band_rejects(m: int, scale: int)
    requires
        0 <= m <= CANDIDATE_COUNT,
    ensures
        forall|j: int|
            m <= j < first_band_index_from(m, scale) ==> !in_band(#[trigger] candidate(j), scale),
    decreases CANDIDATE_COUNT - m,
{
    if m < CANDIDATE_COUNT && !in_band(candidate(m), scale) {
        lemma_first_band_rejects(m + 1, scale);
    }
}

/// The spacing choice is bounded and monotone in the candidate order: either
/// its on-screen interval `s * scale` lies in the target pixel band of 30 to
/// 100 pixels, or no candidate's does and the spacing is exactly the
/// fallback of 50 pixels divided by the zoom.  Among the candidates in the
/// band, the chosen one is the first and therefore the smallest.
pub proof fn lemma_spacing_band_or_fallback(scale: int)
    requires
        1 <= scale,
    ensures
        in_band(chosen_spacing(scale), scale) || (chosen_spacing(scale)
            == FALLBACK_SPACING_FIXED as int / scale && forall|j: int|
            0 <= j < CANDIDATE_COUNT ==> !in_band(#[trigger] candidate(j), scale)),
        forall|j: int|
            0 <= j < first_band_index_from(0, scale) ==> !in_band(#[trigger] candidate(j), scale),
        forall|j: int|
            0 <= j < CANDIDATE_COUNT && in_band(#[trigger] candidate(j), scale) ==> chosen_spacing(
                scale,
            ) <= candidate(j),
{
    lemma_first_band_range(0, scale);
    lemma_first_band_rejects(0, scale);
    let k = first_band_index_from(0, scale);
    assert forall|j: int|
        0 <= j < CANDIDATE_COUNT && in_band(#[trigger] candidate(j), scale) implies chosen_spacing(
        scale,
    ) <= candidate(j) by {
        assert(k <= j);
        lemma_candidate_monotone(k, j);
    }
}

/// Whether `s * scale` lies in the target pixel band, computed exactly in
/// 128-bit arithmetic.
fn in_band_exec(s: i64, scale: i64) -> (b: bool)
    requires
        0 <= s,
        1 <= scale,
    ensures
        b == in_band(s as int, scale as int),
{
    let p = mul_wide(s, scale);
    300_000_000_000_000_000i128 <= p && p <= 1_000_000_000_000_000_000i128
}

/// Finds the smallest candidate spacing whose on-screen interval lies in the
/// target pixel band; when no candidate qualifies (the zoom is extreme), the
/// fallback spacing of about 50 on-screen pixels is returned instead.
pub fn choose_spacing(scale: i64) -> (s: i64)
    requires
        1 <= scale <= MAX_GRID_SCALE,
    ensures
        s == chosen_spacing(scale as int),
        1 <= s <= FALLBACK_SPACING_FIXED,
        in_band(s as int, scale as int) || (first_band_index_from(0, scale as int)
            == CANDIDATE_COUNT && s == FALLBACK_SPACING_FIXED as int / scale as int),
{
    let mut pow: i64 = 1;
    let mut e: u32 = 0;
    let mut found: i64 = 0;
    while e < 17
        invariant_except_break
            0 <= e <= 17,
            pow == pow10(e as nat),
            1 <= pow <= 100_000_000_000_000_000,
            1 <= scale <= MAX_GRID_SCALE,
            found == 0,
            forall|j: int| 0 <= j < 3 * e ==> !in_band(#[trigger] candidate(j), scale as int),
        ensures
            found == 0 ==> forall|j: int|
                0 <= j < CANDIDATE_COUNT ==> !in_band(#[trigger] candidate(j), scale as int),
            found != 0 ==> first_band_index_from(0, scale as int) < CANDIDATE_COUNT && found
                == candidate(first_band_index_from(0, scale as int)) && in_band(
                found as int,
                scale as int,
            ) && 1 <= found <= 50_000_000_000_000_000,
        decreases 17 - e,
    {
        proof {
            lemma_pow10_monotone(e as nat, 16);
            lemma_pow10_16();
            lemma_candidate_triple(e as int);
            lemma_pow10_pos(e as nat);
        }
        let c2 = 2 * pow;
        let c5 = 5 * pow;
        if in_band_exec(pow, scale) {
            found = pow;
            proof {
                lemma_first_band_skip(3 * e as int, scale as int);
            }
            break ;
        }
        if in_band_exec(c2, scale) {
            found = c2;
            proof {
                lemma_first_band_skip(3 * e as int + 1, scale as int);
            }
            break ;
        }
        if in_band_exec(c5, scale) {
            found = c5;
            proof {
                lemma_first_band_skip(3 * e as int + 2, scale as int);
            }
            break ;
        }
        proof {
            assert forall|j: int| 0 <= j < 3 * (e + 1) implies !in_band(
                #[trigger] candidate(j),
                scale as int,
            ) by {
                if j == 3 * e {
                    assert(candidate(j) == pow);
                } else if j == 3 * e + 1 {
                    assert(candidate(j) == c2);
                } else if j == 3 * e + 2 {
                    assert(candidate(j) == c5);
                }
            }
        }
        pow = pow * 10;
        e = e + 1;
    }
    if found == 0 {
        proof {
            assert(FALLBACK_SPACING_FIXED == FALLBACK_SPACING_PIXELS * UNIT * UNIT);
            lemma_first_band_skip(CANDIDATE_COUNT as int, scale as int);
            lemma_div_by_self(scale as int);
            lemma_div_is_ordered(scale as int, FALLBACK_SPACING_FIXED as int, scale as int);
            lemma_div_is_ordered_by_denominator(FALLBACK_SPACING_FIXED as int, 1, scale as int);
        }
        floor_div(FALLBACK_SPACING_FIXED, scale)
    } else {
        found
    }
}

/// A grid index is major exactly when it is a multiple of ten (the Euclidean
/// remainder, so index -10 is major).
pub open spec fn is_major_index(i: int) -> bool {
    i % 10 == 0
}

/// The twelve interleaved entries of one grid line segment: a vertical line
/// at world x `coord` spanning y `c0..c1`, or a horizontal line at world y
/// `coord` spanning x `c0..c1`, both endpoints sharing `color`.
pub open spec fn grid_seg(vertical: bool, coord: int, c0: int, c1: int, color: Color) -> Seq<i64> {
    if vertical {
        seq![
            coord as i64,
            c0 as i64,
            color.r,
            color.g,
            color.b,
            color.a,
            coord as i64,
            c1 as i64,
            color.r,
            color.g,
            color.b,
            color.a,
        ]
    } else {
        seq![
            c0 as i64,
            coord as i64,
            color.r,
            color.g,
            color.b,
            color.a,
            c1 as i64,
            coord as i64,
            color.r,
            color.g,
            color.b,
            color.a,
        ]
    }
}

/// The interleaved stream of the grid lines with indices in `[lo, hi)` whose
/// classification matches `want_major`, in increasing index order; line `i`
/// sits at world coordinate `i * s`.
pub open spec fn grid_lines(
    vertical: bool,
    lo: int,
    hi: int,
    s: int,
    c0: int,
    c1: int,
    color: Color,
    want_major: bool,
) -> Seq<i64>
    decreases hi - lo,
{
    if hi <= lo {
        Seq::empty()
    } else {
        grid_lines(vertical, lo, hi - 1, s, c0, c1, color, want_major) + (if is_major_index(hi - 1)
            == want_major {
            grid_seg(vertical, (hi - 1) * s, c0, c1, color)
        } else {
            Seq::empty()
        })
    }
}

/// Every grid-line stream interleaves whole vertices: its length is a
/// multiple of six.
pub proof fn lemma_grid_lines_len(
    vertical: bool,
    lo: int,
    hi: int,
    s: int,
    c0: int,
    c1: int,
    color: Color,
    want_major: bool,
)
    ensures
        grid_lines(vertical, lo, hi, s, c0, c1, color, want_major).len() % 6 == 0,
    decreases hi - lo,
{
    if hi > lo {
        lemma_grid_lines_len(vertical, lo, hi - 1, s, c0, c1, color, want_major);
    }
}

/// Appends the grid lines with indices `lo..=hi` that match `want_major` to
/// the stream, in increasing index order.
fn push_grid_lines(
    pts: &mut Vec<i64>,
    vertical: bool,
    lo: i64,
    hi: i64,
    s: i64,
    c0: i64,
    c1: i64,
    color: Color,
    want_major: bool,
)
    requires
        1 <= s <= FALLBACK_SPACING_FIXED,
        lo <= hi,
        -2_500_000_000_000_000_000 <= lo as int * s as int,
        hi as int * s as int <= 2_500_000_000_000_000_000,
    ensures
        final(pts)@ == old(pts)@ + grid_lines(
            vertical,
            lo as int,
            hi as int + 1,
            s as int,
            c0 as int,
            c1 as int,
            color,
            want_major,
        ),
{
    let mut i = lo;
    proof {
        assert(hi < i64::MAX) by (nonlinear_arith)
            requires
                1 <= s,
                hi as int * s as int <= 2_500_000_000_000_000_000,
        ;
    }
    while i <= hi
        invariant
            lo <= i <= hi + 1,
            hi < i64::MAX,
            1 <= s <= FALLBACK_SPACING_FIXED,
            -2_500_000_000_000_000_000 <= lo as int * s as int,
            hi as int * s as int <= 2_500_000_000_000_000_000,
            pts@ == old(pts)@ + grid_lines(
                vertical,
                lo as int,
                i as int,
                s as int,
                c0 as int,
                c1 as int,
                color,
                want_major,
            ),
        decreases hi + 1 - i,
    {
        proof {
            lemma_mul_inequality(lo as int, i as int, s as int);
            lemma_mul_inequality(i as int, hi as int, s as int);
        }
        let coord_wide = mul_wide(i, s);
        let coord = coord_wide as i64;
        let is_major = euclid_rem(i, 10) == 0;
        let ghost before = pts@;
        let ghost prev = grid_lines(
            vertical,
            lo as int,
            i as int,
            s as int,
            c0 as int,
            c1 as int,
            color,
            want_major,
        );
        let ghost full = grid_lines(
            vertical,
            lo as int,
            i as int + 1,
            s as int,
            c0 as int,
            c1 as int,
            color,
            want_major,
        );
        if is_major == want_major {
            if vertical {
                pts.push(coord);
                pts.push(c0);
            } else {
                pts.push(c0);
                pts.push(coord);
            }
            pts.push(color.r);
            pts.push(color.g);
            pts.push(color.b);
            pts.push(color.a);
            if vertical {
                pts.push(coord);
                pts.push(c1);
            } else {
                pts.push(c1);
                pts.push(coord);
            }
            pts.push(color.r);
            pts.push(color.g);
            pts.push(color.b);
            pts.push(color.a);
            proof {
                let seg = grid_seg(vertical, i as int * s as int, c0 as int, c1 as int, color);
                assert(pts@ =~= before + seg);
                assert(full == prev + seg);
                assert(pts@ =~= old(pts)@ + full);
            }
        } else {
            proof {
                assert(full == prev + Seq::<i64>::empty());
                assert(pts@ =~= old(pts)@ + full);
            }
        }
        i = i + 1;
    }
}

/// The minor shade of the base grid color: the same channels at 0.7x alpha.
pub open spec fn minor_shade(c: Color) -> Color {
    Color { r: c.r, g: c.g, b: c.b, a: ((c.a * 7) / 10) as i64 }
}

/// Derives the minor grid color from the base color.
pub fn minor_color_of(c: Color) -> (m: Color)
    requires
        c.wf(),
    ensures
        m == minor_shade(c),
        m.wf(),
{
    proof {
        lemma_mul_nonnegative(c.a as int, 7);
        lemma_div_pos_is_pos(c.a as int * 7, 10);
        lemma_mul_inequality(c.a as int, UNIT as int, 7);
        lemma_div_is_ordered(c.a as int * 7, UNIT as int * 7, 10);
        assert((UNIT as int * 7) / 10 <= UNIT);
    }
    let a7 = c.a * 7;
    let shade = floor_div(a7, 10);
    Color { r: c.r, g: c.g, b: c.b, a: shade }
}

/// The visible world minimum on one axis: `0 / scale - offset`.
pub open spec fn extent_min(offset: int) -> int {
    -offset
}

/// The visible world maximum on one axis: `res / scale - offset`, with `res`
/// the viewport size in pixels.
pub open spec fn extent_max(offset: int, scale: int, res: int) -> int {
    (res * UNIT * UNIT) / scale - offset
}

/// Computes the visible world maximum on one axis.
fn world_extent_max(offset: i64, scale: i64, res: u32) -> (m: i64)
    requires
        1 <= scale,
        -MAX_COORD <= offset <= MAX_COORD,
        (res as int * UNIT * UNIT) / (scale as int) <= MAX_COORD,
    ensures
        m == extent_max(offset as int, scale as int, res as int),
        extent_min(offset as int) <= m as int <= 2 * MAX_COORD,
{
    proof {
        lemma_mul_nonnegative(res as int * UNIT as int, UNIT as int);
        lemma_div_pos_is_pos(res as int * UNIT as int * UNIT as int, scale as int);
    }
    let ruu: i128 = (res as i128) * (UNIT as i128) * (UNIT as i128);
    let q = floor_div_wide(ruu, scale as i128);
    (q - offset as i128) as i64
}

/// The interleaved stream of one grid pass (minor or major) for the given
/// override transform and viewport: vertical lines first, then horizontal,
/// indices walking `floor(min/s)` to `ceil(max/s)` inclusive on each axis.
pub open spec fn grid_stream_spec(
    offx: int,
    offy: int,
    scale: int,
    w: int,
    h: int,
    color: Color,
    want_major: bool,
) -> Seq<i64> {
    let s = chosen_spacing(scale);
    let min_x = extent_min(offx);
    let max_x = extent_max(offx, scale, w);
    let min_y = extent_min(offy);
    let max_y = extent_max(offy, scale, h);
    grid_lines(true, min_x / s, ceil_div_spec(max_x, s) + 1, s, min_y, max_y, color, want_major)
        + grid_lines(
        false,
        min_y / s,
        ceil_div_spec(max_y, s) + 1,
        s,
        min_x,
        max_x,
        color,
        want_major,
    )
}

/// Builds the interleaved stream of one grid pass.
pub fn build_grid_stream(
    offset_x: i64,
    offset_y: i64,
    scale: i64,
    width: u32,
    height: u32,
    color: Color,
    want_major: bool,
) -> (pts: Vec<i64>)
    requires
        1 <= scale <= MAX_GRID_SCALE,
        -MAX_COORD <= offset_x <= MAX_COORD,
        -MAX_COORD <= offset_y <= MAX_COORD,
        (width as int * UNIT * UNIT) / (scale as int) <= MAX_COORD,
        (height as int * UNIT * UNIT) / (scale as int) <= MAX_COORD,
    ensures
        pts@ == grid_stream_spec(
            offset_x as int,
            offset_y as int,
            scale as int,
            width as int,
            height as int,
            color,
            want_major,
        ),
        pts@.len() % 6 == 0,
{
    let min_x = -offset_x;
    let max_x = world_extent_max(offset_x, scale, width);
    let min_y = -offset_y;
    let max_y = world_extent_max(offset_y, scale, height);
    let s = choose_spacing(scale);
    let lo_v = floor_div(min_x, s);
    let hi_v = ceil_div(max_x, s);
    let lo_h = floor_div(min_y, s);
    let hi_h = ceil_div(max_y, s);
    proof {
        lemma_floor_div_mul_bounds(min_x as int, s as int);
        lemma_ceil_div_mul_bounds(max_x as int, s as int);
        lemma_floor_div_mul_bounds(min_y as int, s as int);
        lemma_ceil_div_mul_bounds(max_y as int, s as int);
        assert(lo_v <= hi_v && lo_h <= hi_h) by (nonlinear_arith)
            requires
                lo_v as int * s as int <= min_x as int,
                max_x as int <= hi_v as int * s as int,
                lo_h as int * s as int <= min_y as int,
                max_y as int <= hi_h as int * s as int,
                min_x as int <= max_x as int,
                min_y as int <= max_y as int,
                1 <= s,
        ;
    }
    let mut pts: Vec<i64> = Vec::new();
    push_grid_lines(&mut pts, true, lo_v, hi_v, s, min_y, max_y, color, want_major);
    push_grid_lines(&mut pts, false, lo_h, hi_h, s, min_x, max_x, color, want_major);
    proof {
        let vlines = grid_lines(
            true,
            lo_v as int,
            hi_v as int + 1,
            s as int,
            min_y as int,
            max_y as int,
            color,
            want_major,
        );
        let hlines = grid_lines(
            false,
            lo_h as int,
            hi_h as int + 1,
            s as int,
            min_x as int,
            max_x as int,
            color,
            want_major,
        );
        assert(pts@ =~= vlines + hlines);
        lemma_grid_lines_len(
            true,
            lo_v as int,
            hi_v as int + 1,
            s as int,
            min_y as int,
            max_y as int,
            color,
            want_major,
        );
        lemma_grid_lines_len(
            false,
            lo_h as int,
            hi_h as int + 1,
            s as int,
            min_x as int,
            max_x as int,
            color,
            want_major,
        );
    }
    pts
}

} // verus!
