//! The interpolator: remote (non-predicted) entities are rendered at a
//! fixed presentation delay behind the server, strictly between two already
//! confirmed snapshots. Sub-tick render times are carried as a tick plus a
//! fraction in `SUBTICKS` units. On buffer underrun (a network stall) the
//! last known state is held, never extrapolated; before the first snapshot
//! the entity is not rendered. Latency is traded for smoothness: nothing
//! sampled lies after the delayed time.

use vstd::prelude::*;

use crate::sim::EntityState;
use crate::snapshots::{Snapshot, SnapshotHistory};

verus! {

/// Sub-tick time units per tick: a render time is `tick + frac / SUBTICKS`.
pub const SUBTICKS: u64 = 1000;

/// Resolution of the interpolation blend factor.
pub const PERMILLE: u64 = 1000;

/// Linear interpolation from `a` toward `b` by `num / den`, rounded toward
/// `a`.
pub open spec fn lerp_spec(a: int, b: int, num: int, den: int) -> int {
    if b >= a {
        a + (b - a) * num / den
    } else {
        a - (a - b) * num / den
    }
}

/// Linear interpolation on fixed-point coordinates, exact and free of
/// overflow; the result never leaves the closed interval between `a` and
/// `b`.
pub fn lerp_i64(a: i64, b: i64, num: u64, den: u64) -> (r: i64)
    requires
        num <= den,
        0 < den,
    ensures
        r == lerp_spec(a as int, b as int, num as int, den as int),
        a <= b ==> a <= r <= b,
        b <= a ==> b <= r <= a,
{
    if b >= a {
        let d: u128 = ((b as i128) - (a as i128)) as u128;
        proof {
            vstd::arithmetic::mul::lemma_mul_upper_bound(
                d as int,
                u64::MAX as int,
                num as int,
                u64::MAX as int,
            );
        }
        let wide: u128 = d * (num as u128);
        let scaled: u128 = wide / (den as u128);
        proof {
            assert(d * (num as int) <= d * (den as int)) by (nonlinear_arith)
                requires
                    num <= den,
                    d >= 0,
            ;
            vstd::arithmetic::div_mod::lemma_div_is_ordered(
                d * (num as int),
                d * (den as int),
                den as int,
            );
            vstd::arithmetic::div_mod::lemma_div_by_multiple(d as int, den as int);
            assert(scaled <= d);
            vstd::arithmetic::div_mod::lemma_div_pos_is_pos(d * (num as int), den as int);
        }
        let r128: i128 = (a as i128) + (scaled as i128);
        r128 as i64
    } else {
        let d: u128 = ((a as i128) - (b as i128)) as u128;
        proof {
            vstd::arithmetic::mul::lemma_mul_upper_bound(
                d as int,
                u64::MAX as int,
                num as int,
                u64::MAX as int,
            );
        }
        let wide: u128 = d * (num as u128);
        let scaled: u128 = wide / (den as u128);
        proof {
            assert(d * (num as int) <= d * (den as int)) by (nonlinear_arith)
                requires
                    num <= den,
                    d >= 0,
            ;
            vstd::arithmetic::div_mod::lemma_div_is_ordered(
                d * (num as int),
                d * (den as int),
                den as int,
            );
            vstd::arithmetic::div_mod::lemma_div_by_multiple(d as int, den as int);
            assert(scaled <= d);
            vstd::arithmetic::div_mod::lemma_div_pos_is_pos(d * (num as int), den as int);
        }
        let r128: i128 = (a as i128) - (scaled as i128);
        r128 as i64
    }
}

/// The blend factor, in `PERMILLE` units, of the effective render time
/// `eff_tick + eff_frac / SUBTICKS` between the bracketing ticks.
pub open spec fn blend_permille(lo_tick: int, hi_tick: int, eff_tick: int, eff_frac: int) -> int {
    (((eff_tick - lo_tick) * (SUBTICKS as int) + eff_frac) * (PERMILLE as int)) / ((hi_tick
        - lo_tick) * (SUBTICKS as int))
}

/// What sampling a remote entity at a delayed render time yields.
#[derive(Clone, Copy, PartialEq, Eq, Structural, Debug)]
pub enum SampleOutcome {
    /// No snapshot at or before the effective time yet: not rendered.
    Pending,
    /// Only older snapshots exist (buffer underrun): the last known state
    /// is held, never extrapolated.
    Held { at: Snapshot },
    /// Two confirmed snapshots bracket the effective time: the state is
    /// their interpolation at that time.
    Between { lower: Snapshot, upper: Snapshot, state: EntityState },
}

/// Some snapshot of `s` lies at or before `tick`.
pub open spec fn has_at_or_before(s: Seq<Snapshot>, tick: u64) -> bool {
    exists|i: int| 0 <= i < s.len() && (#[trigger] s[i]).tick <= tick
}

/// Samples one entity's confirmed history at render time
/// `render_tick + render_frac / SUBTICKS`, displayed `delay_ticks` behind:
/// the state shown belongs to the effective time `render_tick - delay_ticks`
/// (plus the fraction), never later — the interpolation bound.
pub fn sample(
    history: &SnapshotHistory,
    render_tick: u64,
    render_frac: u64,
    delay_ticks: u64,
) -> (r: SampleOutcome)
    requires
        history.wf(),
        render_frac < SUBTICKS,
        render_tick < u64::MAX,
    ensures
        (r is Pending) <==> (render_tick < delay_ticks || !has_at_or_before(
            history@,
            (render_tick - delay_ticks) as u64,
        )),
        r matches SampleOutcome::Held { at } ==> {
            let eff = render_tick - delay_ticks;
            &&& exists|i: int| 0 <= i < history@.len() && history@[i] == at
            &&& at.tick <= eff
            &&& forall|j: int| 0 <= j < history@.len() && (#[trigger] history@[j]).tick <= eff
                ==> history@[j].tick <= at.tick
            &&& forall|j: int| 0 <= j < history@.len()
                ==> (#[trigger] history@[j]).tick < (if render_frac == 0 {
                    eff
                } else {
                    eff + 1
                })
            &&& at.tick + delay_ticks <= render_tick
        },
        r matches SampleOutcome::Between { lower, upper, state } ==> {
            let eff = render_tick - delay_ticks;
            &&& exists|i: int| 0 <= i < history@.len() && history@[i] == lower
            &&& exists|i: int| 0 <= i < history@.len() && history@[i] == upper
            &&& lower.tick <= eff <= upper.tick
            &&& lower.tick + delay_ticks <= render_tick
            &&& render_frac > 0 ==> upper.tick > eff
            &&& lower.tick == upper.tick ==> state == lower.state
            &&& lower.tick < upper.tick ==> {
                let f = blend_permille(
                    lower.tick as int,
                    upper.tick as int,
                    eff as int,
                    render_frac as int,
                );
                &&& state.x == lerp_spec(
                    lower.state.x as int,
                    upper.state.x as int,
                    f,
                    PERMILLE as int,
                )
                &&& state.y == lerp_spec(
                    lower.state.y as int,
                    upper.state.y as int,
                    f,
                    PERMILLE as int,
                )
            }
        },
{
    if render_tick < delay_ticks {
        return SampleOutcome::Pending;
    }
    let eff: u64 = render_tick - delay_ticks;
    let lower_found = history.latest_at_or_before(eff);
    match lower_found {
        None => {
            proof {
                if has_at_or_before(history@, eff) {
                    let i = choose|i: int|
                        0 <= i < history@.len() && (#[trigger] history@[i]).tick <= eff;
                    assert(history@[i].tick > eff);
                }
            }
            SampleOutcome::Pending
        },
        Some(lo) => {
            proof {
                let i = choose|i: int| 0 <= i < history@.len() && history@[i] == lo;
                assert((history@[i]).tick <= eff);
            }
            let target_up: u64 = if render_frac == 0 {
                eff
            } else {
                eff + 1
            };
            let upper_found = history.earliest_at_or_after(target_up);
            match upper_found {
                None => SampleOutcome::Held { at: lo },
                Some(hi) => {
                    if hi.tick <= lo.tick {
                        SampleOutcome::Between { lower: lo, upper: hi, state: lo.state }
                    } else {
                        let span: u64 = hi.tick - lo.tick;
                        proof {
                            vstd::arithmetic::mul::lemma_mul_inequality(
                                eff - lo.tick,
                                u64::MAX as int,
                                SUBTICKS as int,
                            );
                            vstd::arithmetic::mul::lemma_mul_inequality(
                                span as int,
                                u64::MAX as int,
                                SUBTICKS as int,
                            );
                        }
                        let num: u128 = ((eff - lo.tick) as u128) * (SUBTICKS as u128)
                            + (render_frac as u128);
                        let den: u128 = (span as u128) * (SUBTICKS as u128);
                        proof {
                            assert((eff - lo.tick) * (SUBTICKS as int) + render_frac <= span * (
                            SUBTICKS as int)) by (nonlinear_arith)
                                requires
                                    0 <= eff - lo.tick,
                                    render_frac > 0 ==> hi.tick > eff,
                                    render_frac == 0 ==> hi.tick >= eff,
                                    0 <= render_frac < SUBTICKS,
                                    span == hi.tick - lo.tick,
                                    lo.tick < hi.tick,
                            ;
                        }
                        let f_wide: u128 = (num * (PERMILLE as u128)) / den;
                        proof {
                            assert(num * (PERMILLE as int) <= den * (PERMILLE as int)) by (
                            nonlinear_arith)
                                requires
                                    num <= den,
                            ;
                            vstd::arithmetic::div_mod::lemma_div_is_ordered(
                                num * (PERMILLE as int),
                                den * (PERMILLE as int),
                                den as int,
                            );
                            assert((den * (PERMILLE as int)) / (den as int) == PERMILLE as int)
                                by {
                                vstd::arithmetic::div_mod::lemma_div_by_multiple(
                                    PERMILLE as int,
                                    den as int,
                                );
                                vstd::arithmetic::mul::lemma_mul_is_commutative(
                                    den as int,
                                    PERMILLE as int,
                                );
                            }
                            vstd::arithmetic::div_mod::lemma_div_pos_is_pos(
                                num * (PERMILLE as int),
                                den as int,
                            );
                        }
                        let f: u64 = f_wide as u64;
                        let state = EntityState {
                            x: lerp_i64(lo.state.x, hi.state.x, f, PERMILLE),
                            y: lerp_i64(lo.state.y, hi.state.y, f, PERMILLE),
                        };
                        SampleOutcome::Between { lower: lo, upper: hi, state }
                    }
                },
            }
        },
    }
}

} // verus!
