use netsync::clock::{CatchUpOutcome, TickClock};
use netsync::commands::CommandBuffer;
use netsync::interpolate::{SampleOutcome, lerp_i64, sample};
use netsync::predict::PredictionHistory;
use netsync::reconcile::{
    CorrectionTarget, ReconcileOutcome, Reconciler, SyncStatus, check_tolerance,
    display_correction, divergence,
};
use netsync::sim::{Command, EntityState, replay, step};
use netsync::snapshots::{Snapshot, SnapshotHistory};

fn st(x: i64, y: i64) -> EntityState {
    EntityState { x, y }
}

fn right() -> Command {
    Command { dx: 1, dy: 0 }
}

#[test]
fn step_moves_by_command() {
    assert_eq!(step(st(3, 4), Command { dx: 2, dy: -5 }), st(5, -1));
}

#[test]
fn step_saturates_at_range_ends() {
    assert_eq!(step(st(i64::MAX, 0), right()).x, i64::MAX);
    assert_eq!(step(st(i64::MIN, 0), Command { dx: -1, dy: 0 }).x, i64::MIN);
}

#[test]
fn replay_is_deterministic_across_runs() {
    let cmds = vec![
        Command { dx: 1, dy: 0 },
        Command { dx: 0, dy: 2 },
        Command { dx: -3, dy: 1 },
        Command { dx: 5, dy: -5 },
    ];
    let first_run = replay(st(10, 10), &cmds);
    let second_run = replay(st(10, 10), &cmds);
    assert_eq!(first_run, second_run);
    assert_eq!(first_run.len(), 4);
    assert_eq!(first_run[3], st(13, 8));
}

#[test]
fn prediction_is_contiguous_from_the_anchor() {
    let mut buf = CommandBuffer::new();
    buf.record(101, 1, right());
    buf.record(103, 1, right());
    let mut history = PredictionHistory::new(100, st(0, 0));
    for _ in 0..3 {
        history.predict(&buf, 1);
    }
    assert_eq!(history.len(), 3);
    assert_eq!(history.last_confirmed_tick(), 100);
    assert_eq!(history.state_for(101), st(1, 0));
    assert_eq!(history.state_for(102), st(1, 0)); // no command: neutral input
    assert_eq!(history.state_for(103), st(2, 0));
    assert_eq!(history.current(), st(2, 0));
}

#[test]
fn matching_confirmation_prunes_and_keeps_later_ticks() {
    let mut buf = CommandBuffer::new();
    for t in 101..=105u64 {
        buf.record(t, 1, right());
    }
    let mut history = PredictionHistory::new(100, st(0, 0));
    for _ in 0..5 {
        history.predict(&buf, 1);
    }
    let later_103 = history.state_for(103);
    let later_105 = history.state_for(105);
    let rec = Reconciler::new(0);
    let mut status = SyncStatus::Diverged;
    let auth = Snapshot { tick: 102, state: st(2, 0) };
    let (outcome, correction) = rec.process(&mut history, &mut status, &buf, 1, auth);
    assert_eq!(outcome, ReconcileOutcome::Confirmed);
    assert_eq!(status, SyncStatus::Synced);
    assert!(correction.is_none());
    assert_eq!(history.last_confirmed_tick(), 102);
    assert_eq!(history.len(), 3);
    assert_eq!(history.state_for(103), later_103);
    assert_eq!(history.state_for(105), later_105);
}

#[test]
fn divergent_confirmation_replays_forward() {
    // The client predicts motion to the right over ticks 100..=110: with no
    // command recorded for tick 100 it reaches x = 10. The server confirms
    // tick 100 at x = 1 (a different but compatible starting point), so the
    // ticks after 100 replay from there and land on x = 11.
    let mut buf = CommandBuffer::new();
    for t in 101..=110u64 {
        buf.record(t, 1, right());
    }
    let mut history = PredictionHistory::new(99, st(0, 0));
    for _ in 0..11 {
        history.predict(&buf, 1);
    }
    assert_eq!(history.state_for(100), st(0, 0));
    assert_eq!(history.state_for(110), st(10, 0));
    let rec = Reconciler::new(0);
    let mut status = SyncStatus::Diverged;
    let auth = Snapshot { tick: 100, state: st(1, 0) };
    let (outcome, correction) = rec.process(&mut history, &mut status, &buf, 1, auth);
    assert_eq!(outcome, ReconcileOutcome::Replayed { magnitude: 1 });
    assert_eq!(status, SyncStatus::Synced);
    assert_eq!(history.last_confirmed_tick(), 100);
    assert_eq!(history.len(), 10);
    assert_eq!(history.state_for(101), st(2, 0));
    assert_eq!(history.state_for(110), st(11, 0));
    assert_eq!(
        correction,
        Some(CorrectionTarget { from: st(10, 0), to: st(11, 0) })
    );
}

#[test]
fn stale_confirmation_is_dropped() {
    let buf = CommandBuffer::new();
    let mut history = PredictionHistory::new(100, st(5, 5));
    history.predict(&buf, 1);
    let rec = Reconciler::new(0);
    let mut status = SyncStatus::Diverged;
    let auth = Snapshot { tick: 100, state: st(999, 999) };
    let (outcome, correction) = rec.process(&mut history, &mut status, &buf, 1, auth);
    assert_eq!(outcome, ReconcileOutcome::Stale);
    assert!(correction.is_none());
    assert_eq!(history.last_confirmed_tick(), 100);
    assert_eq!(history.len(), 1);
    assert_eq!(history.current(), st(5, 5));
}

#[test]
fn confirmation_past_all_predictions_resets() {
    let buf = CommandBuffer::new();
    let mut history = PredictionHistory::new(100, st(5, 5));
    history.predict(&buf, 1);
    let rec = Reconciler::new(0);
    let mut status = SyncStatus::Diverged;
    let auth = Snapshot { tick: 200, state: st(7, 7) };
    let (outcome, correction) = rec.process(&mut history, &mut status, &buf, 1, auth);
    assert_eq!(outcome, ReconcileOutcome::Reset);
    assert!(correction.is_none());
    assert_eq!(history.last_confirmed_tick(), 200);
    assert_eq!(history.len(), 0);
    assert_eq!(history.current(), st(7, 7));
}

#[test]
fn repeated_confirmation_empties_the_history() {
    let mut buf = CommandBuffer::new();
    for t in 101..=104u64 {
        buf.record(t, 1, right());
    }
    let mut history = PredictionHistory::new(100, st(0, 0));
    for _ in 0..4 {
        history.predict(&buf, 1);
    }
    let rec = Reconciler::new(0);
    let mut status = SyncStatus::Diverged;
    for t in 101..=104u64 {
        let auth = Snapshot { tick: t, state: st((t - 100) as i64, 0) };
        let (outcome, _) = rec.process(&mut history, &mut status, &buf, 1, auth);
        assert_eq!(outcome, ReconcileOutcome::Confirmed);
        assert_eq!(history.len(), (104 - t) as usize);
    }
    assert_eq!(history.len(), 0);
    assert_eq!(history.last_confirmed_tick(), 104);
}

#[test]
fn tolerance_absorbs_serialization_noise() {
    assert!(check_tolerance(st(10, 10), st(12, 8), 2));
    assert!(!check_tolerance(st(10, 10), st(13, 10), 2));
    assert_eq!(divergence(st(0, 0), st(3, 4)), 7);
}

#[test]
fn correction_eases_toward_the_target() {
    let target = CorrectionTarget { from: st(0, 0), to: st(10, -10) };
    assert_eq!(display_correction(target, 0, 5), st(0, 0));
    assert_eq!(display_correction(target, 2, 5), st(4, -4));
    assert_eq!(display_correction(target, 5, 5), st(10, -10));
    assert_eq!(display_correction(target, 9, 5), st(10, -10));
    assert_eq!(display_correction(target, 0, 0), st(10, -10));
}

#[test]
fn lerp_interpolates_in_both_directions() {
    assert_eq!(lerp_i64(0, 10, 1, 4), 2);
    assert_eq!(lerp_i64(10, 0, 1, 4), 8);
    assert_eq!(lerp_i64(-4, 4, 1, 2), 0);
    assert_eq!(lerp_i64(3, 3, 1, 2), 3);
}

#[test]
fn interpolation_blends_between_brackets() {
    // Delay of 3 ticks; snapshots at tick 50 (position 0) and 52 (position
    // 4). Sampling at render time 53.5 lands at effective time 50.5, a
    // quarter of the way from 50 to 52: position 1.
    let mut h = SnapshotHistory::new();
    h.apply(Snapshot { tick: 50, state: st(0, 0) });
    h.apply(Snapshot { tick: 52, state: st(4, 0) });
    let r = sample(&h, 53, 500, 3);
    match r {
        SampleOutcome::Between { lower, upper, state } => {
            assert_eq!(lower.tick, 50);
            assert_eq!(upper.tick, 52);
            assert_eq!(state, st(1, 0));
        },
        _ => panic!("expected an interpolated sample"),
    }
}

#[test]
fn interpolation_exact_tick_returns_that_snapshot() {
    let mut h = SnapshotHistory::new();
    h.apply(Snapshot { tick: 50, state: st(0, 0) });
    h.apply(Snapshot { tick: 52, state: st(4, 0) });
    let r = sample(&h, 53, 0, 3);
    match r {
        SampleOutcome::Between { lower, upper, state } => {
            assert_eq!(lower.tick, 50);
            assert_eq!(upper.tick, 50);
            assert_eq!(state, st(0, 0));
        },
        _ => panic!("expected an exact sample"),
    }
}

#[test]
fn interpolation_holds_last_state_on_underrun() {
    let mut h = SnapshotHistory::new();
    h.apply(Snapshot { tick: 50, state: st(4, 0) });
    let r = sample(&h, 90, 0, 3);
    assert_eq!(
        r,
        SampleOutcome::Held { at: Snapshot { tick: 50, state: st(4, 0) } }
    );
}

#[test]
fn interpolation_pending_before_first_snapshot() {
    let empty = SnapshotHistory::new();
    assert_eq!(sample(&empty, 90, 0, 3), SampleOutcome::Pending);
    let mut h = SnapshotHistory::new();
    h.apply(Snapshot { tick: 50, state: st(4, 0) });
    assert_eq!(sample(&h, 40, 0, 3), SampleOutcome::Pending);
    assert_eq!(sample(&h, 2, 0, 3), SampleOutcome::Pending);
}

#[test]
fn interpolation_never_samples_past_the_delay() {
    let mut h = SnapshotHistory::new();
    h.apply(Snapshot { tick: 50, state: st(0, 0) });
    h.apply(Snapshot { tick: 52, state: st(4, 0) });
    h.apply(Snapshot { tick: 60, state: st(9, 0) });
    for render_tick in 50..70u64 {
        match sample(&h, render_tick, 0, 3) {
            SampleOutcome::Pending => {},
            SampleOutcome::Held { at } => assert!(at.tick + 3 <= render_tick),
            SampleOutcome::Between { lower, .. } => assert!(lower.tick + 3 <= render_tick),
        }
    }
}

#[test]
fn network_stall_degrades_to_neutral_input_and_fast_forward() {
    // All messages for ticks 200..=210 are lost: command reads fall back to
    // neutral, and the clock absorbs the 11-tick gap by snapping forward,
    // resuming at tick 211 without failing.
    let buf = CommandBuffer::new();
    for t in 200..=210u64 {
        assert_eq!(buf.get_or_neutral(t, 1), Command { dx: 0, dy: 0 });
    }
    let mut clock = TickClock::new(200, 5);
    let outcome = clock.catch_up(11);
    assert_eq!(outcome, CatchUpOutcome::FastForward { gap: 11 });
    assert_eq!(clock.now(), 211);
    assert_eq!(clock.advance(), 212);
}
