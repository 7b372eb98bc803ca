use fractal_pendulum::color::{HueConfig, HueMode, HueTarget, Rgb};
use fractal_pendulum::fractal::{
    generate_fractal, render_frame, FractalConfig, Node, Primitive, ScreenMap, Vec2, Viewport,
};
use fractal_pendulum::fx::{BOUND, SCALE};
use fractal_pendulum::state::PendulumState;

fn v(x: i64, y: i64) -> Vec2 {
    Vec2 { x, y }
}

fn full_viewport() -> Viewport {
    Viewport { min_x: -BOUND, min_y: -BOUND, max_x: BOUND, max_y: BOUND }
}

fn identity_map() -> ScreenMap {
    ScreenMap { scale_x: SCALE, scale_y: SCALE, offset_x: 0, offset_y: 0 }
}

fn base_config(depth: usize) -> FractalConfig {
    FractalConfig {
        depth,
        line_width: SCALE,
        width_decay: SCALE / 2,
        saturation: 0,
        saturation_decay: SCALE,
        luminance: SCALE,
        luminance_decay: SCALE,
        show_balls: false,
        ball_radius: 10 * SCALE,
        sqrt_m1: SCALE,
        sqrt_m2: SCALE,
        sqrt_m3: SCALE,
    }
}

// Trunk pointing straight up with length 1, anchored at the origin.
fn trunk() -> Node {
    Node { start: v(0, 0), vec: v(0, SCALE) }
}

// Rotate a quarter turn; scale by one half.
fn t_rot() -> Vec2 {
    v(0, SCALE)
}

fn t_half() -> Vec2 {
    v(SCALE / 2, 0)
}

fn count_segments(prims: &[Primitive]) -> usize {
    prims.iter().filter(|p| matches!(p, Primitive::Segment { .. })).count()
}

fn count_balls(prims: &[Primitive]) -> usize {
    prims.iter().filter(|p| matches!(p, Primitive::Ball { .. })).count()
}

#[test]
fn segment_count_is_two_pow_depth_plus_one_minus_one() {
    for depth in 0..=6usize {
        let cfg = base_config(depth);
        let (prims, count) = generate_fractal(
            &cfg,
            0,
            0,
            trunk(),
            t_rot(),
            t_half(),
            &full_viewport(),
            &identity_map(),
        );
        assert_eq!(count, (1usize << (depth + 1)) - 1);
        assert_eq!(count_segments(&prims), count);
        assert_eq!(count_balls(&prims), 0);
    }
}

#[test]
fn segment_count_independent_of_geometry_and_attributes() {
    let mut cfg = base_config(4);
    cfg.line_width = 3 * SCALE;
    cfg.width_decay = 0;
    cfg.saturation = SCALE;
    cfg.saturation_decay = SCALE / 3;
    cfg.luminance = SCALE / 2;
    cfg.luminance_decay = 0;
    let (prims, count) = generate_fractal(
        &cfg,
        120 * SCALE,
        -360 * SCALE,
        Node { start: v(7 * SCALE, -2 * SCALE), vec: v(SCALE / 3, 5 * SCALE) },
        v(3 * SCALE / 2, SCALE / 7),
        v(-SCALE / 9, 2 * SCALE),
        &full_viewport(),
        &identity_map(),
    );
    assert_eq!(count, 31);
    assert_eq!(count_segments(&prims), 31);
}

#[test]
fn ball_markers_add_three_primitives() {
    let mut cfg = base_config(3);
    cfg.show_balls = true;
    let (prims, count) = generate_fractal(
        &cfg,
        0,
        0,
        trunk(),
        t_rot(),
        t_half(),
        &full_viewport(),
        &identity_map(),
    );
    assert_eq!(count, 15);
    assert_eq!(count_segments(&prims), 15);
    assert_eq!(count_balls(&prims), 3);
    // Balls are emitted first, so after the reversal they are drawn last.
    assert!(matches!(prims[0], Primitive::Segment { .. }));
    assert!(matches!(prims[15], Primitive::Ball { .. }));
    assert!(matches!(prims[16], Primitive::Ball { .. }));
    assert!(matches!(prims[17], Primitive::Ball { .. }));
}

#[test]
fn clipping_drops_segments_but_not_count_or_balls() {
    let mut cfg = base_config(3);
    cfg.show_balls = true;
    let far = Viewport { min_x: BOUND - 2, min_y: BOUND - 2, max_x: BOUND - 1, max_y: BOUND - 1 };
    let (prims, count) =
        generate_fractal(&cfg, 0, 0, trunk(), t_rot(), t_half(), &far, &identity_map());
    assert_eq!(count, 15);
    assert_eq!(count_segments(&prims), 0);
    assert_eq!(count_balls(&prims), 3);
}

#[test]
fn depth_one_geometry_and_draw_order() {
    let cfg = base_config(1);
    let (prims, count) = generate_fractal(
        &cfg,
        0,
        0,
        trunk(),
        t_rot(),
        t_half(),
        &full_viewport(),
        &identity_map(),
    );
    assert_eq!(count, 3);
    assert_eq!(prims.len(), 3);
    let white = Rgb { r: 255, g: 255, b: 255 };
    // Drawing order is reverse generation: the two children first, the trunk
    // last. Children were emitted first-transform first.
    assert_eq!(
        prims[2],
        Primitive::Segment { a: v(0, 0), b: v(0, SCALE), width: SCALE, color: white },
    );
    // First child: start at trunk end, offset rotated a quarter turn. It was
    // emitted first within its level, so it is drawn second.
    assert_eq!(
        prims[1],
        Primitive::Segment {
            a: v(0, SCALE),
            b: v(-SCALE, SCALE),
            width: SCALE / 2,
            color: white,
        },
    );
    // Second child: start at trunk end, offset scaled by one half; drawn
    // first.
    assert_eq!(
        prims[0],
        Primitive::Segment {
            a: v(0, SCALE),
            b: v(0, SCALE + SCALE / 2),
            width: SCALE / 2,
            color: white,
        },
    );
}

#[test]
fn hue_gradient_is_per_level() {
    let mut cfg = base_config(1);
    cfg.saturation = SCALE;
    cfg.saturation_decay = SCALE;
    cfg.luminance = SCALE / 2;
    let h2 = 240 * SCALE;
    let (prims, _) = generate_fractal(
        &cfg,
        0,
        h2,
        trunk(),
        t_rot(),
        t_half(),
        &full_viewport(),
        &identity_map(),
    );
    // Node i of a level of n nodes sits at i/n of the gradient, so the
    // first node of every level gets the low endpoint exactly.
    let red = Rgb { r: 255, g: 0, b: 0 };
    let green = Rgb { r: 0, g: 255, b: 0 };
    // Trunk: single node of its level, position 0/1.
    match prims[2] {
        Primitive::Segment { color, .. } => assert_eq!(color, red),
        _ => panic!("expected a segment"),
    }
    // Level 1, node 1: position 1/2 of the gradient, 120 deg.
    match prims[0] {
        Primitive::Segment { color, .. } => assert_eq!(color, green),
        _ => panic!("expected a segment"),
    }
    // Level 1, node 0: position 0/2, the low endpoint again.
    match prims[1] {
        Primitive::Segment { color, .. } => assert_eq!(color, red),
        _ => panic!("expected a segment"),
    }
}

#[test]
fn ball_color_is_hue_midpoint() {
    let mut cfg = base_config(0);
    cfg.show_balls = true;
    cfg.saturation = SCALE;
    cfg.saturation_decay = SCALE;
    cfg.luminance = SCALE / 2;
    let h2 = 240 * SCALE;
    let (prims, _) = generate_fractal(
        &cfg,
        0,
        h2,
        trunk(),
        t_rot(),
        t_half(),
        &full_viewport(),
        &identity_map(),
    );
    // The segment carries the low endpoint (its position is 0/1); every
    // ball marker carries the exact midpoint of the gradient, 120 deg.
    let red = Rgb { r: 255, g: 0, b: 0 };
    let green = Rgb { r: 0, g: 255, b: 0 };
    assert_eq!(prims.len(), 4);
    match prims[0] {
        Primitive::Segment { color, .. } => assert_eq!(color, red),
        _ => panic!("expected a segment"),
    }
    for p in prims[1..].iter() {
        match p {
            Primitive::Ball { color, .. } => assert_eq!(*color, green),
            Primitive::Segment { .. } => panic!("expected a ball"),
        }
    }
}

#[test]
fn ball_positions_follow_chained_transforms() {
    let mut cfg = base_config(0);
    cfg.show_balls = true;
    cfg.ball_radius = 10 * SCALE;
    let (prims, count) = generate_fractal(
        &cfg,
        0,
        0,
        trunk(),
        t_rot(),
        t_half(),
        &full_viewport(),
        &identity_map(),
    );
    assert_eq!(count, 1);
    assert_eq!(prims.len(), 4);
    let white = Rgb { r: 255, g: 255, b: 255 };
    // Drawn last to first: ball 0 at the trunk tip on top.
    assert_eq!(
        prims[3],
        Primitive::Ball { center: v(0, SCALE), radius: 10 * SCALE, color: white },
    );
    // Ball 1 at the end of the first chained transform.
    assert_eq!(
        prims[2],
        Primitive::Ball { center: v(-SCALE, SCALE), radius: 10 * SCALE, color: white },
    );
    // Ball 2 at the end of the second chained transform.
    assert_eq!(
        prims[1],
        Primitive::Ball {
            center: v(-SCALE - SCALE / 2, SCALE),
            radius: 10 * SCALE,
            color: white,
        },
    );
    assert!(matches!(prims[0], Primitive::Segment { .. }));
}

#[test]
fn near_zero_ratio_and_deeper_recursion_stay_total() {
    // A transform with a nearly vanishing length ratio collapses the
    // geometry but never the recursion.
    let mut cfg = base_config(10);
    cfg.width_decay = 0;
    let tiny = v(1, 0);
    let (prims, count) = generate_fractal(
        &cfg,
        0,
        0,
        trunk(),
        tiny,
        tiny,
        &full_viewport(),
        &identity_map(),
    );
    assert_eq!(count, 2047);
    assert_eq!(count_segments(&prims), 2047);
}

#[test]
fn render_frame_resolves_fixed_hues() {
    let mut cfg = base_config(1);
    cfg.saturation = SCALE;
    cfg.luminance = SCALE / 2;
    let hue_cfg = HueConfig {
        mode: HueMode::Fixed,
        hue1: 120 * SCALE,
        hue2: 120 * SCALE,
        target1: HueTarget::Omega1,
        target2: HueTarget::Omega2,
        target3: HueTarget::Theta1,
        factor: SCALE,
    };
    let st = PendulumState {
        theta1: 45 * SCALE,
        omega1: SCALE,
        theta2: -30 * SCALE,
        omega2: 0,
        theta3: 0,
        omega3: 2 * SCALE,
    };
    let (prims, count) = render_frame(
        &hue_cfg,
        &st,
        &cfg,
        trunk(),
        t_rot(),
        t_half(),
        &full_viewport(),
        &identity_map(),
    );
    assert_eq!(count, 3);
    // With both endpoints fixed at 120 degrees every segment is pure green,
    // whatever the state says.
    let green = Rgb { r: 0, g: 255, b: 0 };
    for p in prims.iter() {
        match p {
            Primitive::Segment { color, .. } => assert_eq!(*color, green),
            Primitive::Ball { .. } => panic!("no balls configured"),
        }
    }
}

#[test]
fn width_decays_per_level() {
    let cfg = base_config(2);
    let (prims, _) = generate_fractal(
        &cfg,
        0,
        0,
        trunk(),
        t_rot(),
        t_half(),
        &full_viewport(),
        &identity_map(),
    );
    // Reverse order: the four deepest segments first with width 1/4, then two
    // with width 1/2, then the trunk with the base width.
    let widths: Vec<i64> = prims
        .iter()
        .map(|p| match p {
            Primitive::Segment { width, .. } => *width,
            Primitive::Ball { .. } => panic!("no balls configured"),
        })
        .collect();
    assert_eq!(widths, vec![
        SCALE / 4,
        SCALE / 4,
        SCALE / 4,
        SCALE / 4,
        SCALE / 2,
        SCALE / 2,
        SCALE,
    ]);
}
