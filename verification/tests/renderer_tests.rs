use engine::batch::PrimitiveKind;
use engine::fx::UNIT;
use engine::renderer::{LineStyle, Renderer};

fn square_ring() -> Vec<(i64, i64)> {
    // exact unit directions at quarter turns
    vec![(UNIT, 0), (0, UNIT), (-UNIT, 0), (0, -UNIT)]
}

#[test]
fn new_renderer_defaults() {
    let r = Renderer::new(800, 600);
    assert_eq!(r.width, 800);
    assert_eq!(r.height, 600);
    assert_eq!(r.draw_call_count, 0);
    assert_eq!(r.transform.offset_x, 0);
    assert_eq!(r.transform.offset_y, 0);
    assert_eq!(r.transform.scale, UNIT);
    assert_eq!(r.clear_color.r, UNIT);
    assert_eq!(r.clear_color.a, UNIT);
    assert_eq!(r.grid_color.a, 30_000_000);
}

#[test]
fn resize_updates_viewport_only() {
    let mut r = Renderer::new(800, 600);
    r.resize(1024, 768);
    assert_eq!((r.width, r.height), (1024, 768));
    assert_eq!(r.draw_call_count, 0);
    assert_eq!(r.transform.scale, UNIT);
}

#[test]
fn clear_hands_back_the_clear_color() {
    let r = Renderer::new(8, 8);
    let c = r.clear();
    assert_eq!((c.r, c.g, c.b, c.a), (UNIT, UNIT, UNIT, UNIT));
}

#[test]
fn draw_line_emits_one_two_vertex_call() {
    let mut r = Renderer::new(800, 600);
    let call = r.draw_line(UNIT, 2 * UNIT, 3 * UNIT, 4 * UNIT, UNIT, 0, 0, UNIT);
    assert_eq!(call.kind, PrimitiveKind::Lines);
    assert_eq!(call.positions, vec![UNIT, 2 * UNIT, 3 * UNIT, 4 * UNIT]);
    assert_eq!(call.colors, vec![UNIT, 0, 0, UNIT, UNIT, 0, 0, UNIT]);
    assert_eq!(call.line_width, None);
    assert_eq!(r.draw_call_count, 1);
}

#[test]
fn draw_lines_round_trips_its_input() {
    let mut r = Renderer::new(800, 600);
    let stream = vec![
        1, 2, 10, 20, 30, 40,
        3, 4, 10, 20, 30, 40,
        5, 6, 11, 21, 31, 41,
        7, 8, 11, 21, 31, 41,
    ];
    let (echo, call) = r.draw_lines(&stream);
    assert_eq!(echo, stream);
    let call = call.expect("non-empty input issues a draw call");
    assert_eq!(call.kind, PrimitiveKind::Lines);
    assert_eq!(call.positions, vec![1, 2, 3, 4, 5, 6, 7, 8]);
    assert_eq!(
        call.colors,
        vec![10, 20, 30, 40, 10, 20, 30, 40, 11, 21, 31, 41, 11, 21, 31, 41]
    );
    assert_eq!(r.draw_call_count, 1);
}

#[test]
fn empty_draw_lines_issues_no_call() {
    let mut r = Renderer::new(800, 600);
    let empty: Vec<i64> = Vec::new();
    let (echo, call) = r.draw_lines(&empty);
    assert!(echo.is_empty());
    assert!(call.is_none());
    assert_eq!(r.draw_call_count, 0);
}

#[test]
fn draw_lines_snapshots_the_current_transform() {
    let mut r = Renderer::new(800, 600);
    r.transform.offset_x = 5 * UNIT;
    r.transform.scale = 2 * UNIT;
    let stream = vec![1, 2, 3, 4, 5, 6];
    let (_echo, call) = r.draw_lines(&stream);
    let call = call.unwrap();
    assert_eq!(call.transform.offset_x, 5 * UNIT);
    assert_eq!(call.transform.scale, 2 * UNIT);
    assert_eq!((call.width, call.height), (800, 600));
}

#[test]
fn circle_fan_has_segments_plus_two_vertices_and_closes() {
    let mut r = Renderer::new(800, 600);
    let ring = square_ring();
    let call = r.draw_circle(7 * UNIT, 9 * UNIT, 2 * UNIT, UNIT, 0, 0, UNIT, 4, false, &ring);
    assert_eq!(call.kind, PrimitiveKind::TriangleFan);
    // segments + 2 vertices, two position entries each
    assert_eq!(call.positions.len(), 2 * (4 + 2));
    assert_eq!(call.colors.len(), 4 * (4 + 2));
    // first vertex is the center
    assert_eq!(call.positions[0], 7 * UNIT);
    assert_eq!(call.positions[1], 9 * UNIT);
    // boundary vertices at the four exact quarter-turn directions
    assert_eq!(&call.positions[2..4], &[9 * UNIT, 9 * UNIT]);
    assert_eq!(&call.positions[4..6], &[7 * UNIT, 11 * UNIT]);
    assert_eq!(&call.positions[6..8], &[5 * UNIT, 9 * UNIT]);
    assert_eq!(&call.positions[8..10], &[7 * UNIT, 7 * UNIT]);
    // the closing vertex coincides with the first boundary vertex
    assert_eq!(call.positions[10], call.positions[2]);
    assert_eq!(call.positions[11], call.positions[3]);
    assert_eq!(r.draw_call_count, 1);
}

#[test]
fn circle_colors_repeat_for_every_vertex() {
    let mut r = Renderer::new(800, 600);
    let ring = square_ring();
    let call = r.draw_circle(0, 0, UNIT, 11, 22, 33, 44, 4, false, &ring);
    for v in 0..6 {
        assert_eq!(&call.colors[4 * v..4 * v + 4], &[11, 22, 33, 44]);
    }
}

#[test]
fn screen_space_circle_radius_shrinks_with_zoom() {
    let mut r = Renderer::new(800, 600);
    r.transform.scale = 2 * UNIT;
    let ring = square_ring();
    // a 10-pixel radius at 2x zoom is 5 world units
    let call = r.draw_circle(0, 0, 10 * UNIT, UNIT, UNIT, UNIT, UNIT, 4, true, &ring);
    assert_eq!(&call.positions[2..4], &[5 * UNIT, 0]);
    // doubling the zoom halves the emitted radius
    let mut r2 = Renderer::new(800, 600);
    r2.transform.scale = 4 * UNIT;
    let call2 = r2.draw_circle(0, 0, 10 * UNIT, UNIT, UNIT, UNIT, UNIT, 4, true, &ring);
    assert_eq!(call2.positions[2], call.positions[2] / 2);
}

#[test]
fn line_style_carries_color_and_dash_pattern() {
    let style = LineStyle {
        r: UNIT,
        g: 0,
        b: 0,
        a: UNIT,
        dashed: true,
        dash_length: 2 * UNIT,
        gap_length: UNIT,
    };
    let copy = style;
    assert_eq!(copy, style);
    assert!(style.dashed);
    assert_eq!(style.dash_length, 2 * UNIT);
}

#[test]
fn zero_segments_is_clamped_to_three() {
    let mut r = Renderer::new(800, 600);
    let ring = vec![(UNIT, 0), (0, UNIT), (-UNIT, 0)];
    let call = r.draw_circle(0, 0, UNIT, UNIT, UNIT, UNIT, UNIT, 0, false, &ring);
    assert_eq!(call.positions.len(), 2 * (3 + 2));
    assert_eq!(call.positions[8], call.positions[2]);
    assert_eq!(call.positions[9], call.positions[3]);
}

#[test]
fn one_segment_keeps_its_count_and_degenerates() {
    // segments >= 1 is taken as given: a one-segment fan has 3 vertices,
    // all of its boundary points coincident (zero area), exactly as asked
    let mut r = Renderer::new(800, 600);
    let ring = vec![(UNIT, 0)];
    let call = r.draw_circle(5 * UNIT, 0, 2 * UNIT, UNIT, UNIT, UNIT, UNIT, 1, false, &ring);
    assert_eq!(call.positions.len(), 2 * (1 + 2));
    assert_eq!(&call.positions[0..2], &[5 * UNIT, 0]);
    assert_eq!(&call.positions[2..4], &[7 * UNIT, 0]);
    // the closing vertex wraps back to the only direction
    assert_eq!(&call.positions[4..6], &[7 * UNIT, 0]);
}

#[test]
fn two_segments_keep_their_count() {
    // a two-segment fan has 4 vertices: center, the two opposite boundary
    // points, and the closing duplicate of the first
    let mut r = Renderer::new(800, 600);
    let ring = vec![(UNIT, 0), (-UNIT, 0)];
    let call = r.draw_circle(0, 0, 3 * UNIT, UNIT, UNIT, UNIT, UNIT, 2, false, &ring);
    assert_eq!(call.positions.len(), 2 * (2 + 2));
    assert_eq!(&call.positions[0..2], &[0, 0]);
    assert_eq!(&call.positions[2..4], &[3 * UNIT, 0]);
    assert_eq!(&call.positions[4..6], &[-3 * UNIT, 0]);
    assert_eq!(&call.positions[6..8], &[3 * UNIT, 0]);
}
