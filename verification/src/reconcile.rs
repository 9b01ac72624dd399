//! The reconciler: when an authoritative snapshot arrives for a predicted
//! entity, it is compared against the locally predicted state for the same
//! tick, with a tolerance absorbing serialization noise. Within tolerance,
//! the prediction is confirmed and older entries are discarded; beyond it,
//! the authoritative state is adopted and every later tick is re-simulated
//! from it with the originally recorded commands. Divergence is recovered
//! automatically, never surfaced as a failure; the corrected state applies
//! to the simulation at once, while a correction target lets presentation
//! code ease the displayed value over instead of snapping.

use vstd::prelude::*;

use crate::commands::CommandBuffer;
use crate::predict::{PredictionHistory, recorded_commands};
use crate::sim::{EntityState, run_spec};
use crate::snapshots::Snapshot;

verus! {

/// The per-entity reconciliation state machine. Absorbing one snapshot runs
/// `Synced → Diverged → Replaying → Synced` when it diverges, and stays
/// `Synced` otherwise; the replay completes within the pass, so the machine
/// always rests in `Synced` between snapshots.
#[derive(Clone, Copy, PartialEq, Eq, Structural, Debug)]
pub enum SyncStatus {
    /// Prediction agrees with everything confirmed so far.
    Synced,
    /// A confirmed state disagreed beyond tolerance.
    Diverged,
    /// Re-simulating the ticks after the divergent one.
    Replaying,
}

/// How one authoritative snapshot was absorbed.
#[derive(Clone, Copy, PartialEq, Eq, Structural, Debug)]
pub enum ReconcileOutcome {
    /// The snapshot was older than the last confirmed tick: dropped.
    Stale,
    /// The snapshot was at or past every predicted tick (a stall): accepted
    /// directly, the history restarts from it.
    Reset,
    /// It matched the prediction within tolerance: entries at or before its
    /// tick are confirmed and discarded.
    Confirmed,
    /// It diverged: the later ticks were re-simulated from it. The magnitude
    /// is reported for diagnostics.
    Replayed { magnitude: u64 },
}

/// A correction for presentation code: the simulation already holds `to`,
/// and the displayed value may ease from `from` toward it over a short
/// duration instead of snapping.
#[derive(Clone, Copy, PartialEq, Eq, Structural, Debug)]
pub struct CorrectionTarget {
    pub from: EntityState,
    pub to: EntityState,
}

/// The state presentation code displays `elapsed_ticks` after a correction:
/// eased linearly from the stale displayed value onto the corrected one
/// over `smoothing_ticks`, and exactly the corrected one from then on. With
/// no smoothing configured the correction shows at once.
pub fn display_correction(
    target: CorrectionTarget,
    elapsed_ticks: u64,
    smoothing_ticks: u64,
) -> (shown: EntityState)
    ensures
        elapsed_ticks >= smoothing_ticks ==> shown == target.to,
        elapsed_ticks < smoothing_ticks ==> {
            &&& shown.x == crate::interpolate::lerp_spec(
                target.from.x as int,
                target.to.x as int,
                elapsed_ticks as int,
                smoothing_ticks as int,
            )
            &&& shown.y == crate::interpolate::lerp_spec(
                target.from.y as int,
                target.to.y as int,
                elapsed_ticks as int,
                smoothing_ticks as int,
            )
        },
{
    if elapsed_ticks >= smoothing_ticks {
        target.to
    } else {
        EntityState {
            x: crate::interpolate::lerp_i64(
                target.from.x,
                target.to.x,
                elapsed_ticks,
                smoothing_ticks,
            ),
            y: crate::interpolate::lerp_i64(
                target.from.y,
                target.to.y,
                elapsed_ticks,
                smoothing_ticks,
            ),
        }
    }
}

/// Distance between two coordinates.
pub open spec fn coord_dist(a: int, b: int) -> int {
    if a >= b {
        a - b
    } else {
        b - a
    }
}

/// The two states agree within `tolerance` on every coordinate — numeric
/// comparison with an epsilon, not exact equality.
pub open spec fn within_tolerance(a: EntityState, b: EntityState, tolerance: u64) -> bool {
    coord_dist(a.x as int, b.x as int) <= tolerance
        && coord_dist(a.y as int, b.y as int) <= tolerance
}

/// The divergence magnitude: the coordinate distances added, saturated at
/// what a diagnostic counter can carry.
pub open spec fn divergence_spec(a: EntityState, b: EntityState) -> int {
    let d = coord_dist(a.x as int, b.x as int) + coord_dist(a.y as int, b.y as int);
    if d > u64::MAX {
        u64::MAX as int
    } else {
        d
    }
}

/// Distance between two coordinates, computed without overflow.
fn coord_dist_exec(a: i64, b: i64) -> (d: u64)
    ensures
        d == coord_dist(a as int, b as int),
{
    if a >= b {
        let wide: i128 = (a as i128) - (b as i128);
        wide as u64
    } else {
        let wide: i128 = (b as i128) - (a as i128);
        wide as u64
    }
}

/// Decides agreement within `tolerance`.
pub fn check_tolerance(a: EntityState, b: EntityState, tolerance: u64) -> (r: bool)
    ensures
        r == within_tolerance(a, b, tolerance),
{
    coord_dist_exec(a.x, b.x) <= tolerance && coord_dist_exec(a.y, b.y) <= tolerance
}

/// The divergence magnitude, for diagnostics.
pub fn divergence(a: EntityState, b: EntityState) -> (d: u64)
    ensures
        d == divergence_spec(a, b),
{
    let dx = coord_dist_exec(a.x, b.x);
    let dy = coord_dist_exec(a.y, b.y);
    if dx > u64::MAX - dy {
        u64::MAX
    } else {
        dx + dy
    }
}

/// The reconciliation policy knobs, read from configuration: how far apart
/// a prediction and a confirmation may sit before a replay is forced.
pub struct Reconciler {
    pub tolerance: u64,
}

impl Reconciler {
    pub fn new(tolerance: u64) -> (r: Reconciler)
        ensures
            r.tolerance == tolerance,
    {
        Reconciler { tolerance }
    }

    /// Absorbs one authoritative snapshot into a predicted entity's history.
    ///
    /// - Older than the last confirmed tick: stale, dropped, nothing moves.
    /// - At or past every predicted tick: accepted directly, the history
    ///   restarts from it.
    /// - Matching the prediction for its tick within tolerance: confirmed;
    ///   entries at or before that tick are discarded, later ones are kept
    ///   unchanged.
    /// - Divergent: the authoritative state is adopted at its tick and every
    ///   later recorded tick is re-simulated from it with the originally
    ///   recorded commands; a correction target reports how far the newest
    ///   state moved, so display code can ease instead of snap.
    pub fn process(
        &self,
        history: &mut PredictionHistory,
        status: &mut SyncStatus,
        buf: &CommandBuffer,
        entity: u64,
        auth: Snapshot,
    ) -> (r: (ReconcileOutcome, Option<CorrectionTarget>))
        requires
            old(history).wf(),
            buf.wf(),
            auth.tick < u64::MAX,
        ensures
            final(history).wf(),
            *final(status) == SyncStatus::Synced,
            auth.tick <= old(history).anchor_tick() ==> {
                &&& *final(history) == *old(history)
                &&& r == (ReconcileOutcome::Stale, Option::<CorrectionTarget>::None)
            },
            auth.tick >= old(history).next_tick() ==> {
                &&& final(history).anchor_tick() == auth.tick
                &&& final(history).anchor_state() == auth.state
                &&& final(history).states() == Seq::<EntityState>::empty()
                &&& r == (ReconcileOutcome::Reset, Option::<CorrectionTarget>::None)
            },
            old(history).covers(auth.tick as int) && within_tolerance(
                old(history).state_at(auth.tick as int),
                auth.state,
                self.tolerance,
            ) ==> {
                &&& final(history).anchor_tick() == auth.tick
                &&& final(history).anchor_state() == old(history).state_at(auth.tick as int)
                &&& final(history).states() == old(history).states().subrange(
                    auth.tick - old(history).anchor_tick(),
                    old(history).states().len() as int,
                )
                &&& final(history).next_tick() == old(history).next_tick()
                &&& r == (ReconcileOutcome::Confirmed, Option::<CorrectionTarget>::None)
            },
            old(history).covers(auth.tick as int) && !within_tolerance(
                old(history).state_at(auth.tick as int),
                auth.state,
                self.tolerance,
            ) ==> {
                &&& final(history).anchor_tick() == auth.tick
                &&& final(history).anchor_state() == auth.state
                &&& final(history).states() == run_spec(
                    auth.state,
                    recorded_commands(
                        buf@,
                        entity,
                        auth.tick + 1,
                        (old(history).next_tick() - auth.tick - 1) as nat,
                    ),
                )
                &&& final(history).next_tick() == old(history).next_tick()
                &&& r == (
                    ReconcileOutcome::Replayed {
                        magnitude: divergence_spec(
                            old(history).state_at(auth.tick as int),
                            auth.state,
                        ) as u64,
                    },
                    Some(
                        CorrectionTarget {
                            from: old(history).current_state(),
                            to: final(history).current_state(),
                        },
                    ),
                )
            },
    {
        let anchor = history.last_confirmed_tick();
        if auth.tick <= anchor {
            *status = SyncStatus::Synced;
            return (ReconcileOutcome::Stale, None);
        }
        let len = history.len();
        if auth.tick - anchor > len as u64 {
            history.reset_to(auth.tick, auth.state);
            *status = SyncStatus::Synced;
            return (ReconcileOutcome::Reset, None);
        }
        let predicted = history.state_for(auth.tick);
        if check_tolerance(predicted, auth.state, self.tolerance) {
            history.confirm_at(auth.tick);
            *status = SyncStatus::Synced;
            (ReconcileOutcome::Confirmed, None)
        } else {
            *status = SyncStatus::Diverged;
            let magnitude = divergence(predicted, auth.state);
            let from = history.current();
            *status = SyncStatus::Replaying;
            history.replay_from(auth.tick, auth.state, buf, entity);
            let to = history.current();
            *status = SyncStatus::Synced;
            (
                ReconcileOutcome::Replayed { magnitude },
                Some(CorrectionTarget { from, to }),
            )
        }
    }
}

/// Replay correctness: after a confirmation at tick `t` that matched the
/// prediction within tolerance, the history holds no entry at or before `t`,
/// and its entries after `t` are exactly the ones predicted before — tick
/// for tick, state for state — unchanged.
pub proof fn lemma_confirm_keeps_later_ticks(
    pre: PredictionHistory,
    post: PredictionHistory,
    t: u64,
)
    requires
        pre.wf(),
        pre.covers(t as int),
        post.anchor_tick() == t,
        post.states() == pre.states().subrange(
            t - pre.anchor_tick(),
            pre.states().len() as int,
        ),
    ensures
        forall|tick: int| tick <= t ==> !post.covers(tick),
        forall|tick: int| t < tick < pre.next_tick() ==> post.covers(tick),
        forall|tick: int| t < tick < pre.next_tick()
            ==> #[trigger] post.state_at(tick) == pre.state_at(tick),
{
    assert forall|tick: int| t < tick < pre.next_tick()
        implies #[trigger] post.state_at(tick) == pre.state_at(tick) by {
        assert(post.states()[tick - t - 1] == pre.states()[tick - pre.anchor_tick() - 1]);
    }
}

/// Convergence: a confirmation at tick `t` shrinks the unconfirmed history
/// to exactly the ticks after `t`, strictly fewer entries than before; once
/// `t` reaches the newest predicted tick, the history is empty. Repeated
/// confirmation therefore cannot let the history grow without bound.
pub proof fn lemma_confirmation_converges(
    pre: PredictionHistory,
    post: PredictionHistory,
    t: u64,
)
    requires
        pre.wf(),
        pre.covers(t as int),
        post.anchor_tick() == t,
        post.states() == pre.states().subrange(
            t - pre.anchor_tick(),
            pre.states().len() as int,
        ),
    ensures
        post.states().len() == pre.next_tick() - 1 - t,
        post.states().len() < pre.states().len(),
        t == pre.current_tick() ==> post.states().len() == 0,
{
}

} // verus!
