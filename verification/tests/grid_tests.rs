use engine::fx::{euclid_rem, UNIT};
use engine::grid::choose_spacing;
use engine::renderer::Renderer;

#[test]
fn spacing_of_one_at_fifty_pixels_per_unit() {
    // 1 * 50 = 50 px, inside [30, 100]; the first (smallest) candidate wins
    assert_eq!(choose_spacing(50 * UNIT), UNIT);
}

#[test]
fn spacing_of_one_at_forty_pixels_per_unit() {
    // 1 * 40 = 40 px is already in the band: the choice stays 1, it is not
    // replaced by 50 / scale = 1.25
    assert_eq!(choose_spacing(40 * UNIT), UNIT);
}

#[test]
fn spacing_of_two_when_one_is_too_dense() {
    // 1 * 20 = 20 px < 30; 2 * 20 = 40 px qualifies
    assert_eq!(choose_spacing(20 * UNIT), 2 * UNIT);
}

#[test]
fn spacing_of_five_when_two_is_too_dense() {
    // 1 * 8 = 8 px, 2 * 8 = 16 px, 5 * 8 = 40 px qualifies
    assert_eq!(choose_spacing(8 * UNIT), 5 * UNIT);
}

#[test]
fn spacing_lower_band_edge_is_inclusive() {
    // 1 * 30 = 30 px sits exactly on the lower edge and is accepted; every
    // smaller candidate is below the band (0.5 * 30 = 15 px)
    assert_eq!(choose_spacing(30 * UNIT), UNIT);
    // one pixel-per-unit less and 1 falls out; the next candidate 2 wins
    assert_eq!(choose_spacing(29 * UNIT), 2 * UNIT);
}

#[test]
fn spacing_prefers_the_smallest_qualifying_candidate() {
    // at 100 px per unit both 0.5 (50 px) and 1 (100 px) are in the band;
    // the candidates are searched in increasing order, so 0.5 wins
    assert_eq!(choose_spacing(100 * UNIT), UNIT / 2);
}

#[test]
fn spacing_uses_fractional_candidates_when_zoomed_in() {
    // at 1000 px per world unit, 0.05 * 1000 = 50 px qualifies
    assert_eq!(choose_spacing(1000 * UNIT), UNIT / 20);
}

#[test]
fn spacing_falls_back_to_fifty_pixels_when_no_candidate_fits() {
    // at scale 1 (10^-8 px per world unit) even the largest candidate is far
    // below 30 px; the fallback is 50 px / scale, here 50 * 10^8 world units
    assert_eq!(choose_spacing(1), 500_000_000_000_000_000);
}

#[test]
fn spacing_band_holds_across_zoom_levels() {
    let mut scale: i64 = 4;
    while scale < 400_000_000_000_000_000 {
        let s = choose_spacing(scale);
        let px = (s as i128) * (scale as i128);
        let in_band = 30 * (UNIT as i128) * (UNIT as i128) <= px
            && px <= 100 * (UNIT as i128) * (UNIT as i128);
        let fallback = s == 500_000_000_000_000_000 / scale;
        assert!(in_band || fallback, "scale {scale}: spacing {s} neither in band nor fallback");
        scale = scale.saturating_mul(7);
    }
}

#[test]
fn indices_at_multiples_of_ten_are_major() {
    for i in [-10i64, 0, 10, 20] {
        assert_eq!(euclid_rem(i, 10), 0, "index {i} must be major");
    }
    for i in [1i64, 5, 17, -5] {
        assert_ne!(euclid_rem(i, 10), 0, "index {i} must be minor");
    }
}

#[test]
fn grid_end_to_end_at_800_by_600_and_scale_50() {
    let mut r = Renderer::new(800, 600);
    let calls = r.draw_grid(0, 0, 50 * UNIT);
    // spacing 1: vertical indices 0..=16 (800 px / 50 px per unit),
    // horizontal 0..=12; majors at 0 and 10 on each axis
    assert_eq!(calls.len(), 2);
    assert_eq!(r.draw_call_count, 2);
    let minor = &calls[0];
    let major = &calls[1];
    assert_eq!(minor.line_width, Some(1));
    assert_eq!(major.line_width, Some(2));
    // 15 minor vertical + 11 minor horizontal lines, 2 vertices each
    assert_eq!(minor.positions.len(), (15 + 11) * 4);
    // 2 major vertical + 2 major horizontal lines
    assert_eq!(major.positions.len(), (2 + 2) * 4);
    // first minor vertical line sits at world x = 1, spanning y 0..12
    assert_eq!(&minor.positions[0..4], &[UNIT, 0, UNIT, 12 * UNIT]);
    // first major vertical line sits at world x = 0
    assert_eq!(&major.positions[0..4], &[0, 0, 0, 12 * UNIT]);
    // last major horizontal line sits at world y = 10, spanning x 0..16
    let n = major.positions.len();
    assert_eq!(&major.positions[n - 4..], &[0, 10 * UNIT, 16 * UNIT, 10 * UNIT]);
    // major lines carry the base color, minor ones 0.7x its alpha
    assert_eq!(&major.colors[0..4], &[0, 0, 0, 30_000_000]);
    assert_eq!(&minor.colors[0..4], &[0, 0, 0, 21_000_000]);
}

#[test]
fn grid_carries_the_override_transform_and_restores_the_renderers() {
    let mut r = Renderer::new(800, 600);
    r.transform.offset_x = 3 * UNIT;
    r.transform.offset_y = 4 * UNIT;
    r.transform.scale = 2 * UNIT;
    let calls = r.draw_grid(7 * UNIT, 8 * UNIT, 50 * UNIT);
    // the issued calls use the override...
    assert_eq!(calls[0].transform.offset_x, 7 * UNIT);
    assert_eq!(calls[0].transform.offset_y, 8 * UNIT);
    assert_eq!(calls[0].transform.scale, 50 * UNIT);
    // ...and the renderer's own transform is untouched afterwards
    assert_eq!(r.transform.offset_x, 3 * UNIT);
    assert_eq!(r.transform.offset_y, 4 * UNIT);
    assert_eq!(r.transform.scale, 2 * UNIT);
}

#[test]
fn grid_skips_an_empty_pass() {
    // a collapsed viewport sees only the single index 0 on each axis, which
    // is major: the minor pass is empty and must issue no draw call
    let mut r = Renderer::new(0, 0);
    let calls = r.draw_grid(0, 0, 50 * UNIT);
    assert_eq!(calls.len(), 1);
    assert_eq!(calls[0].line_width, Some(2));
    assert_eq!(r.draw_call_count, 1);
}

#[test]
fn grid_offset_shifts_the_visible_extents() {
    // offset -5 world units: visible x is 5..=21, so vertical indices 5..=21
    // with majors at 10 and 20
    let mut r = Renderer::new(800, 600);
    let calls = r.draw_grid(-5 * UNIT, 0, 50 * UNIT);
    assert_eq!(calls.len(), 2);
    let major = &calls[1];
    // vertical majors at x = 10 and 20; y spans 0..12 since offset_y is 0
    assert_eq!(&major.positions[0..4], &[10 * UNIT, 0, 10 * UNIT, 12 * UNIT]);
    assert_eq!(&major.positions[4..8], &[20 * UNIT, 0, 20 * UNIT, 12 * UNIT]);
}
