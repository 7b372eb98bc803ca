//! Color model: resolving a hue-interpolation pair from configuration and
//! live state, interpolating hues along a fractal level, and converting
//! hue/saturation/luminance to 8-bit RGB.
//!
//! Hues are angles in scaled degrees (see [`crate::angle`]); saturation and
//! luminance are fixed-point values in `[0, SCALE]`. The conversion follows
//! the standard piecewise chroma/hue-sector formula with exact rational
//! arithmetic over the common denominator [`DENOM`], rounding each channel
//! to the nearest 8-bit value.

use vstd::prelude::*;
use crate::fx;
use crate::fx::SCALE;
use crate::angle;
use crate::angle::TURN;
use crate::state::PendulumState;

verus! {

/// One hue sector: 60 degrees in scaled units.
pub const SIXTH: i64 = 60 * SCALE;

/// Common denominator of the exact channel values before rounding:
/// `2 * SCALE * SCALE * SIXTH`, written out so its value is a literal.
pub const DENOM: i64 = 33776997205278720;

/// An 8-bit color.
#[derive(Clone, Copy, PartialEq, Eq, Structural, Debug)]
pub struct Rgb {
    pub r: u8,
    pub g: u8,
    pub b: u8,
}

/// The hue folded into `[0, TURN)`.
pub open spec fn hue_wrapped(h: int) -> int {
    h % (TURN as int)
}

/// Which of the six 60-degree sectors the hue falls in.
pub open spec fn sector_of(h: int) -> int {
    hue_wrapped(h) / (SIXTH as int)
}

/// Position within the sector, in `[0, SIXTH)`.
pub open spec fn sector_frac(h: int) -> int {
    hue_wrapped(h) % (SIXTH as int)
}

/// `|2l - 1|`, numerator over SCALE.
pub open spec fn luma_dist(l: int) -> int {
    if 2 * l >= SCALE as int {
        2 * l - SCALE as int
    } else {
        SCALE as int - 2 * l
    }
}

/// Chroma `(1 - |2l - 1|) * s`, numerator over SCALE squared.
pub open spec fn chroma_num(s: int, l: int) -> int {
    (SCALE as int - luma_dist(l)) * s
}

/// The triangular ramp `1 - |((h / 60deg) mod 2) - 1|`, numerator over
/// SIXTH: it rises across even sectors and falls across odd ones.
pub open spec fn ramp_num(h: int) -> int {
    if sector_of(h) % 2 == 0 {
        sector_frac(h)
    } else {
        SIXTH as int - sector_frac(h)
    }
}

/// Round `255 * num / DENOM` to the nearest integer (half up), for a
/// nonnegative numerator.
pub open spec fn to_byte(num: int) -> int {
    (510 * num + DENOM as int) / (2 * (DENOM as int))
}

/// Exact channel numerators (red, green, blue) over [`DENOM`], by sector.
pub open spec fn hsl_channels(h: int, s: int, l: int) -> (int, int, int) {
    let cd = 2 * (SIXTH as int) * chroma_num(s, l);
    let xd = 2 * chroma_num(s, l) * ramp_num(h);
    let md = (SIXTH as int) * (2 * l * (SCALE as int) - chroma_num(s, l));
    let sec = sector_of(h);
    if sec == 0 {
        (cd + md, xd + md, md)
    } else if sec == 1 {
        (xd + md, cd + md, md)
    } else if sec == 2 {
        (md, cd + md, xd + md)
    } else if sec == 3 {
        (md, xd + md, cd + md)
    } else if sec == 4 {
        (xd + md, md, cd + md)
    } else {
        (cd + md, md, xd + md)
    }
}

/// The rounded 8-bit color for a hue (any angle), saturation and luminance
/// in `[0, SCALE]`.
pub open spec fn hsl_rgb_spec(h: int, s: int, l: int) -> Rgb {
    let ch = hsl_channels(h, s, l);
    Rgb { r: to_byte(ch.0) as u8, g: to_byte(ch.1) as u8, b: to_byte(ch.2) as u8 }
}

/// Bounds tying the chroma and ramp numerators to the unit interval; the
/// literals are SCALE, SIXTH and their products, spelled out so every bound
/// is linear at the use site.
proof fn lemma_hsl_bounds(s: int, l: int, dl: int, cn: int, ramp: int)
    by (nonlinear_arith)
    requires
        0 <= s <= 65536,
        0 <= l <= 65536,
        dl == (if 2 * l >= 65536 {
            2 * l - 65536
        } else {
            65536 - 2 * l
        }),
        cn == (65536 - dl) * s,
        0 <= ramp <= 3932160,
    ensures
        0 <= cn <= 4294967296,
        cn <= 131072 * l,
        cn + 131072 * l <= 8589934592,
        0 <= cn * ramp,
        cn * ramp <= 3932160 * cn,
{
}

/// Round an exact channel numerator to its 8-bit value.
fn to_byte_exec(num: u64) -> (b: u8)
    requires
        num as int <= DENOM as int,
    ensures
        b as int == to_byte(num as int),
{
    let n: u128 = num as u128;
    let d: u128 = DENOM as u128;
    let q: u128 = (510 * n + d) / (2 * d);
    proof {
        vstd::arithmetic::div_mod::lemma_div_pos_is_pos(
            510 * (num as int) + DENOM as int,
            2 * (DENOM as int),
        );
        vstd::arithmetic::div_mod::lemma_div_is_ordered(
            510 * (num as int) + DENOM as int,
            511 * (DENOM as int),
            2 * (DENOM as int),
        );
        vstd::arithmetic::div_mod::lemma_fundamental_div_mod_converse(
            511 * (DENOM as int),
            2 * (DENOM as int),
            255,
            DENOM as int,
        );
    }
    q as u8
}

/// Convert hue (scaled degrees, any angle), saturation and luminance (fixed
/// point in `[0, SCALE]`) to the rounded 8-bit color.
pub fn hsl_to_rgb(h: i64, s: i64, l: i64) -> (c: Rgb)
    requires
        0 <= s <= SCALE,
        0 <= l <= SCALE,
    ensures
        c == hsl_rgb_spec(h as int, s as int, l as int),
{
    proof {
        assert(SCALE as int == 65536);
        assert(SIXTH as int == 3932160);
        assert(DENOM as int == 33776997205278720);
    }
    let u: i64 = angle::wrap_turn(h);
    let uu: u64 = u as u64;
    let sector: u64 = uu / (SIXTH as u64);
    let fr: u64 = uu % (SIXTH as u64);
    proof {
        assert(uu as int == hue_wrapped(h as int));
        assert(sector as int == sector_of(h as int));
        assert(fr as int == sector_frac(h as int));
    }
    let dl: u64 = if 2 * l >= SCALE {
        (2 * l - SCALE) as u64
    } else {
        (SCALE - 2 * l) as u64
    };
    proof {
        fx::lemma_mul_le(SCALE as int - dl as int, s as int, 65536, 65536);
    }
    let cn: u64 = ((SCALE as u64) - dl) * (s as u64);
    let ramp: u64 = if sector % 2 == 0 {
        fr
    } else {
        (SIXTH as u64) - fr
    };
    proof {
        lemma_hsl_bounds(s as int, l as int, dl as int, cn as int, ramp as int);
    }
    let cd: u64 = 7864320 * cn;  // chroma over DENOM: 2 * SIXTH * cn
    let xd: u64 = 2 * (cn * ramp);
    let t2l: u64 = 131072 * (l as u64);  // 2 * l * SCALE
    let md: u64 = 3932160 * (t2l - cn);  // match term over DENOM: SIXTH * (2*l*SCALE - cn)
    proof {
        let si = s as int;
        let li = l as int;
        let hi = h as int;
        let cni = chroma_num(si, li);
        assert(cn as int == cni);
        assert(ramp as int == ramp_num(hi));
        assert(cd as int == 2 * (SIXTH as int) * cni) by (nonlinear_arith)
            requires
                cd as int == 7864320 * (cn as int),
                cn as int == cni,
                SIXTH as int == 3932160;
        assert(xd as int == 2 * cni * ramp_num(hi)) by (nonlinear_arith)
            requires
                xd as int == 2 * ((cn as int) * (ramp as int)),
                cn as int == cni,
                ramp as int == ramp_num(hi);
        assert(md as int == (SIXTH as int) * (2 * li * (SCALE as int) - cni)) by (nonlinear_arith)
            requires
                md as int == 3932160 * (131072 * li - (cn as int)),
                cn as int == cni,
                SIXTH as int == 3932160,
                SCALE as int == 65536;
        assert(cd + md <= DENOM);
        assert(xd + md <= cd + md);
        assert(md <= DENOM);
    }
    if sector == 0 {
        Rgb { r: to_byte_exec(cd + md), g: to_byte_exec(xd + md), b: to_byte_exec(md) }
    } else if sector == 1 {
        Rgb { r: to_byte_exec(xd + md), g: to_byte_exec(cd + md), b: to_byte_exec(md) }
    } else if sector == 2 {
        Rgb { r: to_byte_exec(md), g: to_byte_exec(cd + md), b: to_byte_exec(xd + md) }
    } else if sector == 3 {
        Rgb { r: to_byte_exec(md), g: to_byte_exec(xd + md), b: to_byte_exec(cd + md) }
    } else if sector == 4 {
        Rgb { r: to_byte_exec(xd + md), g: to_byte_exec(md), b: to_byte_exec(cd + md) }
    } else {
        Rgb { r: to_byte_exec(cd + md), g: to_byte_exec(md), b: to_byte_exec(xd + md) }
    }
}

/// The conversion is periodic in the hue: a full turn added to the hue
/// leaves every channel unchanged, for all valid saturation and luminance.
pub proof fn lemma_hue_periodic(h: int, s: int, l: int)
    ensures
        hsl_rgb_spec(h + TURN as int, s, l) == hsl_rgb_spec(h, s, l),
{
    vstd::arithmetic::div_mod::lemma_mod_add_multiples_vanish(h, TURN as int);
    assert(hue_wrapped(h + TURN as int) == hue_wrapped(h));
}

/// How the two ends of the hue gradient are chosen.
#[derive(Clone, Copy, PartialEq, Eq, Structural, Debug)]
pub enum HueMode {
    /// Both ends are configured constants.
    Fixed,
    /// Both ends follow live state components.
    Dynamic,
}

/// A live state component that a dynamic hue may follow.
#[derive(Clone, Copy, PartialEq, Eq, Structural, Debug)]
pub enum HueTarget {
    Omega1,
    Omega2,
    Omega3,
    Theta1,
    Theta2,
    Theta3,
}

/// Configuration of the hue gradient endpoints.
#[derive(Clone, Copy, PartialEq, Eq, Structural, Debug)]
pub struct HueConfig {
    pub mode: HueMode,
    pub hue1: i64,
    pub hue2: i64,
    pub target1: HueTarget,
    pub target2: HueTarget,
    pub target3: HueTarget,
    pub factor: i64,
}

impl HueConfig {
    pub open spec fn wf(self) -> bool {
        &&& fx::in_range(self.hue1 as int)
        &&& fx::in_range(self.hue2 as int)
        &&& fx::in_range(self.factor as int)
    }
}

/// The state component a selector names.
pub open spec fn select_spec(t: HueTarget, st: PendulumState) -> int {
    match t {
        HueTarget::Omega1 => st.omega1 as int,
        HueTarget::Omega2 => st.omega2 as int,
        HueTarget::Omega3 => st.omega3 as int,
        HueTarget::Theta1 => st.theta1 as int,
        HueTarget::Theta2 => st.theta2 as int,
        HueTarget::Theta3 => st.theta3 as int,
    }
}

/// Low end of the hue gradient: the configured constant in fixed mode;
/// `value(target3) + value(target1) * factor` in dynamic mode.
pub open spec fn resolve_low_spec(cfg: HueConfig, st: PendulumState) -> int {
    match cfg.mode {
        HueMode::Fixed => cfg.hue1 as int,
        HueMode::Dynamic => fx::fx_add(
            select_spec(cfg.target3, st),
            fx::fx_mul(select_spec(cfg.target1, st), cfg.factor as int),
        ),
    }
}

/// High end of the hue gradient: the configured constant in fixed mode;
/// `value(target3) + value(target2) * factor` in dynamic mode.
pub open spec fn resolve_high_spec(cfg: HueConfig, st: PendulumState) -> int {
    match cfg.mode {
        HueMode::Fixed => cfg.hue2 as int,
        HueMode::Dynamic => fx::fx_add(
            select_spec(cfg.target3, st),
            fx::fx_mul(select_spec(cfg.target2, st), cfg.factor as int),
        ),
    }
}

fn select(t: HueTarget, st: &PendulumState) -> (v: i64)
    ensures
        v as int == select_spec(t, *st),
{
    match t {
        HueTarget::Omega1 => st.omega1,
        HueTarget::Omega2 => st.omega2,
        HueTarget::Omega3 => st.omega3,
        HueTarget::Theta1 => st.theta1,
        HueTarget::Theta2 => st.theta2,
        HueTarget::Theta3 => st.theta3,
    }
}

/// Resolve the pair of hue endpoints a frame will interpolate between.
pub fn resolve_hue_pair(cfg: &HueConfig, st: &PendulumState) -> (r: (i64, i64))
    requires
        cfg.wf(),
        st.wf(),
    ensures
        r.0 as int == resolve_low_spec(*cfg, *st),
        r.1 as int == resolve_high_spec(*cfg, *st),
        fx::in_range(r.0 as int),
        fx::in_range(r.1 as int),
{
    match cfg.mode {
        HueMode::Fixed => (cfg.hue1, cfg.hue2),
        HueMode::Dynamic => {
            let base = select(cfg.target3, st);
            let lo = fx::add_sat(base, fx::mul_sat(select(cfg.target1, st), cfg.factor));
            let hi = fx::add_sat(base, fx::mul_sat(select(cfg.target2, st), cfg.factor));
            (lo, hi)
        },
    }
}

/// In fixed mode the resolved pair is exactly the configured pair, whatever
/// the state: two states resolve identically.
pub proof fn lemma_fixed_mode_ignores_state(cfg: HueConfig, s1: PendulumState, s2: PendulumState)
    requires
        cfg.mode == HueMode::Fixed,
    ensures
        resolve_low_spec(cfg, s1) == cfg.hue1 as int,
        resolve_high_spec(cfg, s1) == cfg.hue2 as int,
        resolve_low_spec(cfg, s1) == resolve_low_spec(cfg, s2),
        resolve_high_spec(cfg, s1) == resolve_high_spec(cfg, s2),
{
}

/// Hue of node `i` of a level of `len` nodes: linear interpolation between
/// the two endpoints at the node's normalized position within its level,
/// `i / len`.
pub open spec fn lerp_hue_spec(h1: int, h2: int, i: int, len: int) -> int {
    h1 + fx::tdiv((h2 - h1) * i, len)
}

pub fn lerp_hue(h1: i64, h2: i64, i: usize, len: usize) -> (r: i64)
    requires
        fx::in_range(h1 as int),
        fx::in_range(h2 as int),
        i < len,
        len <= 0x1000_0000,
    ensures
        r as int == lerp_hue_spec(h1 as int, h2 as int, i as int, len as int),
{
    let d: i64 = h2 - h1;
    let neg: bool = d < 0;
    let da: u64 = if d >= 0 {
        d as u64
    } else {
        (-d) as u64
    };
    let t: u64 = i as u64;
    proof {
        fx::lemma_mul_le(da as int, t as int, da as int, len as int);
        fx::lemma_mul_le(da as int, t as int, 0x8000_0000_0000, 0x1000_0000);
    }
    let num: u128 = (da as u128) * (t as u128);
    let den: u128 = len as u128;
    let q: u128 = num / den;
    proof {
        vstd::arithmetic::div_mod::lemma_div_is_ordered(
            num as int,
            (da as int) * (len as int),
            len as int,
        );
        vstd::arithmetic::div_mod::lemma_div_multiples_vanish(da as int, len as int);
        vstd::arithmetic::mul::lemma_mul_is_commutative(da as int, len as int);
        let di = d as int;
        assert(num == if di * (t as int) >= 0 { di * (t as int) } else { -(di * (t as int)) })
            by (nonlinear_arith)
            requires
                num == (da as int) * (t as int),
                da as int == (if di >= 0 { di } else { -di }),
                t as int >= 0;
        assert(neg && num != 0 ==> di * (t as int) < 0) by (nonlinear_arith)
            requires
                num == (da as int) * (t as int),
                da as int == (if di >= 0 { di } else { -di }),
                t as int >= 0,
                neg == (di < 0);
        assert(!neg ==> di * (t as int) >= 0) by (nonlinear_arith)
            requires
                da as int == (if di >= 0 { di } else { -di }),
                t as int >= 0,
                neg == (di < 0);
    }
    let off: i64 = if neg {
        -(q as i64)
    } else {
        q as i64
    };
    h1 + off
}

/// The exact midpoint of the two hue endpoints, for the ball markers.
pub open spec fn hue_mid_spec(h1: int, h2: int) -> int {
    h1 + fx::tdiv(h2 - h1, 2)
}

pub fn hue_midpoint(h1: i64, h2: i64) -> (r: i64)
    requires
        fx::in_range(h1 as int),
        fx::in_range(h2 as int),
    ensures
        r as int == hue_mid_spec(h1 as int, h2 as int),
{
    let d: i64 = h2 - h1;
    let off: i64 = if d >= 0 {
        d / 2
    } else {
        -((-d) / 2)
    };
    h1 + off
}

} // verus!
