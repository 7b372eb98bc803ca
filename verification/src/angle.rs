//! Angle wraparound.
//!
//! Angles are fixed-point scaled degrees (see [`crate::fx`]), so a full turn
//! is the exactly representable constant [`TURN`]. A joint angle is kept in
//! the half-open symmetric range `(-TURN/2, TURN/2]` after every step.

use vstd::prelude::*;
use crate::fx::SCALE;

verus! {

/// One full turn, in scaled degrees.
pub const TURN: i64 = 360 * SCALE;

/// Half a turn, in scaled degrees.
pub const HALF_TURN: i64 = 180 * SCALE;

/// Euclidean remainder of an angle by a full turn: the unique representative
/// of the same direction in `[0, TURN)`.
pub fn wrap_turn(a: i64) -> (r: i64)
    ensures
        0 <= r < TURN,
        r as int == a as int % (TURN as int),
        r as int % (TURN as int) == a as int % (TURN as int),
{
    let t: i128 = TURN as i128;
    let w: i128 = a as i128;
    if w >= 0 {
        let r: i64 = (w % t) as i64;
        proof {
            vstd::arithmetic::div_mod::lemma_small_mod((r as int % (TURN as int)) as nat, TURN as nat);
        }
        r
    } else {
        let m: i128 = (-w) % t;
        proof {
            vstd::arithmetic::div_mod::lemma_fundamental_div_mod(-(w as int), TURN as int);
        }
        if m == 0 {
            proof {
                let q = -(w as int) / (TURN as int);
                vstd::arithmetic::div_mod::lemma_fundamental_div_mod_converse(
                    w as int, TURN as int, -q, 0,
                );
            }
            0
        } else {
            let r: i64 = (t - m) as i64;
            proof {
                let q = -(w as int) / (TURN as int);
                vstd::arithmetic::div_mod::lemma_fundamental_div_mod_converse(
                    w as int, TURN as int, -q - 1, TURN as int - m as int,
                );
            }
            r
        }
    }
}

/// Wrap an angle into the symmetric range `(-TURN/2, TURN/2]`: the Euclidean
/// remainder by a full turn, shifted down by one turn when it lands above a
/// half turn. The result points in the same direction as the input.
pub fn normalize(theta: i64) -> (r: i64)
    ensures
        -(HALF_TURN as int) < r as int <= HALF_TURN as int,
        r as int % (TURN as int) == theta as int % (TURN as int),
{
    let u: i64 = wrap_turn(theta);
    if u > HALF_TURN {
        proof {
            vstd::arithmetic::div_mod::lemma_mod_sub_multiples_vanish(u as int, TURN as int);
        }
        u - TURN
    } else {
        u
    }
}

} // verus!
