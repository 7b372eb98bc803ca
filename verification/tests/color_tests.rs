use fractal_pendulum::angle::TURN;
use fractal_pendulum::color::{
    hsl_to_rgb, hue_midpoint, lerp_hue, resolve_hue_pair, HueConfig, HueMode, HueTarget, Rgb,
};
use fractal_pendulum::fx::SCALE;
use fractal_pendulum::state::PendulumState;

const DEG: i64 = SCALE;
const HALF: i64 = SCALE / 2;

fn rgb(r: u8, g: u8, b: u8) -> Rgb {
    Rgb { r, g, b }
}

#[test]
fn hsl_primary_and_secondary_hues() {
    assert_eq!(hsl_to_rgb(0, SCALE, HALF), rgb(255, 0, 0));
    assert_eq!(hsl_to_rgb(60 * DEG, SCALE, HALF), rgb(255, 255, 0));
    assert_eq!(hsl_to_rgb(120 * DEG, SCALE, HALF), rgb(0, 255, 0));
    assert_eq!(hsl_to_rgb(180 * DEG, SCALE, HALF), rgb(0, 255, 255));
    assert_eq!(hsl_to_rgb(240 * DEG, SCALE, HALF), rgb(0, 0, 255));
    assert_eq!(hsl_to_rgb(300 * DEG, SCALE, HALF), rgb(255, 0, 255));
}

#[test]
fn hsl_grayscale_when_saturation_zero() {
    assert_eq!(hsl_to_rgb(77 * DEG, 0, HALF), rgb(128, 128, 128));
    assert_eq!(hsl_to_rgb(200 * DEG, 0, SCALE / 4), rgb(64, 64, 64));
}

#[test]
fn hsl_luminance_extremes() {
    assert_eq!(hsl_to_rgb(123 * DEG, SCALE, 0), rgb(0, 0, 0));
    assert_eq!(hsl_to_rgb(123 * DEG, SCALE, SCALE), rgb(255, 255, 255));
}

#[test]
fn hsl_half_chroma() {
    // l = 1/4, s = 1: chroma 1/2, so the red channel reads 0.5 in sector 0.
    assert_eq!(hsl_to_rgb(0, SCALE, SCALE / 4), rgb(128, 0, 0));
}

#[test]
fn hsl_mid_sector_ramp() {
    // 90 degrees: sector 1, halfway down the ramp with chroma 1.
    assert_eq!(hsl_to_rgb(90 * DEG, SCALE, HALF), rgb(128, 255, 0));
    // 270 degrees: sector 4, halfway up the ramp.
    assert_eq!(hsl_to_rgb(270 * DEG, SCALE, HALF), rgb(128, 0, 255));
}

#[test]
fn hue_is_periodic_in_full_turns() {
    let cases = [
        (0, SCALE, HALF),
        (90 * DEG, SCALE, HALF),
        (-90 * DEG, SCALE, HALF),
        (17 * DEG, 3 * SCALE / 4, SCALE / 3),
        (359 * DEG, SCALE / 5, SCALE / 2),
    ];
    for &(h, s, l) in cases.iter() {
        assert_eq!(hsl_to_rgb(h + TURN, s, l), hsl_to_rgb(h, s, l));
        assert_eq!(hsl_to_rgb(h - TURN, s, l), hsl_to_rgb(h, s, l));
        assert_eq!(hsl_to_rgb(h + 3 * TURN, s, l), hsl_to_rgb(h, s, l));
    }
}

#[test]
fn negative_hue_wraps_up() {
    assert_eq!(hsl_to_rgb(-120 * DEG, SCALE, HALF), hsl_to_rgb(240 * DEG, SCALE, HALF));
}

fn dynamic_config() -> HueConfig {
    HueConfig {
        mode: HueMode::Dynamic,
        hue1: 11 * DEG,
        hue2: 22 * DEG,
        target1: HueTarget::Omega1,
        target2: HueTarget::Omega2,
        target3: HueTarget::Theta1,
        factor: HALF,
    }
}

#[test]
fn fixed_mode_returns_configured_pair() {
    let cfg = HueConfig { mode: HueMode::Fixed, ..dynamic_config() };
    let s1 = PendulumState { theta1: 0, omega1: 0, theta2: 0, omega2: 0, theta3: 0, omega3: 0 };
    let s2 = PendulumState {
        theta1: 90 * DEG,
        omega1: -3 * SCALE,
        theta2: -45 * DEG,
        omega2: 7 * SCALE,
        theta3: 13 * DEG,
        omega3: SCALE,
    };
    assert_eq!(resolve_hue_pair(&cfg, &s1), (11 * DEG, 22 * DEG));
    assert_eq!(resolve_hue_pair(&cfg, &s2), (11 * DEG, 22 * DEG));
}

#[test]
fn dynamic_mode_follows_selected_components() {
    let cfg = dynamic_config();
    let st = PendulumState {
        theta1: 100 * DEG,
        omega1: SCALE,
        theta2: 0,
        omega2: 2 * SCALE,
        theta3: 0,
        omega3: 0,
    };
    // base = theta1; low = base + omega1 * 1/2; high = base + omega2 * 1/2.
    let expect_lo = 100 * DEG + SCALE / 2;
    let expect_hi = 100 * DEG + SCALE;
    assert_eq!(resolve_hue_pair(&cfg, &st), (expect_lo, expect_hi));
}

#[test]
fn dynamic_mode_selects_any_target() {
    let mut cfg = dynamic_config();
    cfg.target1 = HueTarget::Theta3;
    cfg.target2 = HueTarget::Omega3;
    cfg.target3 = HueTarget::Theta2;
    cfg.factor = SCALE;
    let st = PendulumState {
        theta1: 0,
        omega1: 0,
        theta2: 5 * DEG,
        omega2: 0,
        theta3: 2 * DEG,
        omega3: -4 * SCALE,
    };
    assert_eq!(resolve_hue_pair(&cfg, &st), (7 * DEG, 5 * DEG - 4 * SCALE));
}

#[test]
fn lerp_hue_is_index_over_level_width() {
    // The first node of a level always gets the low endpoint exactly.
    assert_eq!(lerp_hue(0, SCALE, 0, 1), 0);
    assert_eq!(lerp_hue(0, SCALE, 0, 2), 0);
    assert_eq!(lerp_hue(0, SCALE, 1, 2), HALF);
    assert_eq!(lerp_hue(0, SCALE, 1, 4), SCALE / 4);
    assert_eq!(lerp_hue(0, SCALE, 3, 4), 3 * SCALE / 4);
    // descending gradient
    assert_eq!(lerp_hue(SCALE, 0, 1, 2), HALF);
    assert_eq!(lerp_hue(SCALE, 0, 0, 2), SCALE);
}

#[test]
fn hue_midpoint_is_exact_center() {
    assert_eq!(hue_midpoint(0, SCALE), HALF);
    assert_eq!(hue_midpoint(SCALE, 0), HALF);
    assert_eq!(hue_midpoint(-SCALE, SCALE), 0);
    assert_eq!(hue_midpoint(120 * DEG, 120 * DEG), 120 * DEG);
}
