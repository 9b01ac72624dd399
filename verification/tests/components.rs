use netsync::clock::{CatchUpOutcome, TickClock};
use netsync::commands::CommandBuffer;
use netsync::config::{ClientTransports, ConfigError, SimConfig};
use netsync::replicate::{
    Channel, ReplicationGroup, Replicator, SyncMode, Visibility, decide_player_sync,
};
use netsync::sim::{Command, EntityState};
use netsync::snapshots::{ApplyResult, Snapshot, SnapshotHistory, sort_by_tick};
use netsync::store::SnapshotStore;

fn st(x: i64, y: i64) -> EntityState {
    EntityState { x, y }
}

fn snap(tick: u64, x: i64) -> Snapshot {
    Snapshot { tick, state: st(x, 0) }
}

#[test]
fn clock_advance_accumulates() {
    let mut clock = TickClock::new(5, 4);
    let mut previous = clock.now();
    assert_eq!(previous, 5);
    for _ in 0..10 {
        let t = clock.advance();
        assert_eq!(t, previous + 1);
        assert!(t > previous);
        previous = t;
    }
    assert_eq!(clock.now(), 15);
}

#[test]
fn clock_catch_up_within_budget() {
    let mut clock = TickClock::new(100, 8);
    let outcome = clock.catch_up(5);
    assert_eq!(outcome, CatchUpOutcome::Stepped { steps: 5 });
    assert_eq!(clock.now(), 105);
}

#[test]
fn clock_catch_up_snaps_forward_past_budget() {
    let mut clock = TickClock::new(100, 2);
    let outcome = clock.catch_up(10);
    assert_eq!(outcome, CatchUpOutcome::FastForward { gap: 10 });
    assert_eq!(clock.now(), 110);
}

#[test]
fn commands_record_and_get() {
    let mut buf = CommandBuffer::new();
    assert!(buf.record(7, 1, Command { dx: 2, dy: -1 }));
    assert_eq!(buf.get(7, 1), Some(Command { dx: 2, dy: -1 }));
    assert_eq!(buf.get(8, 1), None);
    assert_eq!(buf.get(7, 2), None);
}

#[test]
fn commands_are_write_once() {
    let mut buf = CommandBuffer::new();
    assert!(buf.record(7, 1, Command { dx: 2, dy: 0 }));
    assert!(!buf.record(7, 1, Command { dx: 9, dy: 9 }));
    assert_eq!(buf.get(7, 1), Some(Command { dx: 2, dy: 0 }));
}

#[test]
fn commands_missing_tick_reads_neutral() {
    let buf = CommandBuffer::new();
    assert_eq!(buf.get_or_neutral(3, 1), Command { dx: 0, dy: 0 });
}

#[test]
fn commands_prune_drops_old_ticks() {
    let mut buf = CommandBuffer::new();
    buf.record(1, 1, Command { dx: 1, dy: 0 });
    buf.record(5, 1, Command { dx: 2, dy: 0 });
    buf.record(9, 2, Command { dx: 3, dy: 0 });
    buf.prune(5);
    assert_eq!(buf.get(1, 1), None);
    assert_eq!(buf.get(5, 1), Some(Command { dx: 2, dy: 0 }));
    assert_eq!(buf.get(9, 2), Some(Command { dx: 3, dy: 0 }));
}

#[test]
fn snapshots_apply_in_order() {
    let mut h = SnapshotHistory::new();
    assert_eq!(h.apply(snap(3, 30)), ApplyResult::Applied);
    assert_eq!(h.apply(snap(5, 50)), ApplyResult::Applied);
    assert_eq!(h.latest(), Some(snap(5, 50)));
    assert_eq!(h.len(), 2);
}

#[test]
fn snapshots_stale_and_duplicate_are_noops() {
    let mut h = SnapshotHistory::new();
    h.apply(snap(5, 50));
    assert_eq!(h.apply(snap(5, 99)), ApplyResult::Stale);
    assert_eq!(h.apply(snap(3, 99)), ApplyResult::Stale);
    assert_eq!(h.get(5), Some(st(50, 0)));
    assert_eq!(h.len(), 1);
}

#[test]
fn snapshots_sort_reorders_by_tick() {
    let batch = vec![snap(9, 9), snap(2, 2), snap(5, 5), snap(2, 2)];
    let sorted = sort_by_tick(batch);
    assert_eq!(sorted.len(), 4);
    let ticks: Vec<u64> = sorted.iter().map(|s| s.tick).collect();
    assert_eq!(ticks, vec![2, 2, 5, 9]);
}

#[test]
fn snapshots_out_of_order_batch_applies_sorted() {
    let mut h = SnapshotHistory::new();
    let sorted = sort_by_tick(vec![snap(7, 70), snap(4, 40), snap(6, 60)]);
    h.apply_ordered(&sorted);
    assert_eq!(h.len(), 3);
    assert_eq!(h.get(4), Some(st(40, 0)));
    assert_eq!(h.get(6), Some(st(60, 0)));
    assert_eq!(h.get(7), Some(st(70, 0)));
}

#[test]
fn snapshots_bracket_lookups() {
    let mut h = SnapshotHistory::new();
    h.apply(snap(10, 1));
    h.apply(snap(20, 2));
    h.apply(snap(30, 3));
    assert_eq!(h.latest_at_or_before(25), Some(snap(20, 2)));
    assert_eq!(h.latest_at_or_before(30), Some(snap(30, 3)));
    assert_eq!(h.latest_at_or_before(9), None);
    assert_eq!(h.earliest_at_or_after(25), Some(snap(30, 3)));
    assert_eq!(h.earliest_at_or_after(10), Some(snap(10, 1)));
    assert_eq!(h.earliest_at_or_after(31), None);
}

#[test]
fn snapshots_prune_keeps_recent_suffix() {
    let mut h = SnapshotHistory::new();
    h.apply(snap(10, 1));
    h.apply(snap(20, 2));
    h.apply(snap(30, 3));
    h.prune_before(20);
    assert_eq!(h.len(), 2);
    assert_eq!(h.get(10), None);
    assert_eq!(h.get(20), Some(st(2, 0)));
    assert_eq!(h.get(30), Some(st(3, 0)));
}

#[test]
fn store_tracks_entities_independently() {
    let mut store = SnapshotStore::new();
    assert_eq!(store.apply(1, snap(10, 100)), ApplyResult::Applied);
    assert_eq!(store.apply(2, snap(11, 200)), ApplyResult::Applied);
    assert_eq!(store.apply(1, snap(12, 120)), ApplyResult::Applied);
    assert_eq!(store.apply(1, snap(12, 999)), ApplyResult::Stale);
    assert_eq!(store.latest(1), Some(snap(12, 120)));
    assert_eq!(store.latest(2), Some(snap(11, 200)));
    assert_eq!(store.latest(3), None);
    let h1 = store.history(1).expect("entity 1 tracked");
    assert_eq!(h1.len(), 2);
}

#[test]
fn store_prune_all_evicts_old_ticks_everywhere() {
    let mut store = SnapshotStore::new();
    store.apply(1, snap(10, 1));
    store.apply(1, snap(20, 2));
    store.apply(2, snap(5, 3));
    store.prune_all(15);
    let h1 = store.history(1).expect("entity 1 tracked");
    assert_eq!(h1.len(), 1);
    assert_eq!(h1.get(20), Some(st(2, 0)));
    let h2 = store.history(2).expect("entity 2 tracked");
    assert_eq!(h2.len(), 0);
}

#[test]
fn replicator_respects_send_interval() {
    let mut store = SnapshotStore::new();
    store.apply(1, snap(4, 40));
    let mut rep = Replicator::new(5);
    rep.add_group(ReplicationGroup {
        id: 1,
        members: vec![1],
        mode: SyncMode::Interpolated,
        visibility: Visibility::All,
        spawn_sent: false,
    });
    assert_eq!(rep.tick(3, &store).len(), 0);
    let out = rep.tick(5, &store);
    assert_eq!(out.len(), 1);
    assert_eq!(out[0].entity, 1);
    assert_eq!(out[0].channel, Channel::Unreliable);
    assert_eq!(out[0].target, Visibility::All);
    assert_eq!(out[0].snapshot, snap(4, 40));
}

#[test]
fn replicator_once_mode_sends_spawn_only() {
    let mut store = SnapshotStore::new();
    store.apply(7, snap(1, 10));
    let mut rep = Replicator::new(1);
    rep.add_group(ReplicationGroup {
        id: 1,
        members: vec![7],
        mode: SyncMode::Once,
        visibility: Visibility::Only { client: 3 },
        spawn_sent: false,
    });
    let first = rep.tick(0, &store);
    assert_eq!(first.len(), 1);
    assert_eq!(first[0].channel, Channel::ReliableOrdered);
    let second = rep.tick(1, &store);
    assert_eq!(second.len(), 0);
}

#[test]
fn replicator_skips_members_without_state() {
    let store = SnapshotStore::new();
    let mut rep = Replicator::new(1);
    rep.add_group(ReplicationGroup {
        id: 1,
        members: vec![1, 2],
        mode: SyncMode::Predicted,
        visibility: Visibility::All,
        spawn_sent: false,
    });
    assert_eq!(rep.tick(0, &store).len(), 0);
}

#[test]
fn replicator_emits_groups_and_members_in_order() {
    let mut store = SnapshotStore::new();
    store.apply(1, snap(2, 10));
    store.apply(2, snap(2, 20));
    store.apply(3, snap(2, 30));
    let mut rep = Replicator::new(1);
    rep.add_group(ReplicationGroup {
        id: 1,
        members: vec![1, 2],
        mode: SyncMode::Predicted,
        visibility: Visibility::All,
        spawn_sent: false,
    });
    rep.add_group(ReplicationGroup {
        id: 2,
        members: vec![3],
        mode: SyncMode::Once,
        visibility: Visibility::All,
        spawn_sent: true,
    });
    rep.add_group(ReplicationGroup {
        id: 3,
        members: vec![3],
        mode: SyncMode::Interpolated,
        visibility: Visibility::All,
        spawn_sent: false,
    });
    let out = rep.tick(2, &store);
    let entities: Vec<u64> = out.iter().map(|m| m.entity).collect();
    // The already-sent once-only group emits nothing; the rest emit group
    // by group, member by member.
    assert_eq!(entities, vec![1, 2, 3]);
}

#[test]
fn visibility_selects_clients() {
    assert!(Visibility::All.includes(4));
    assert!(!Visibility::AllExcept { client: 4 }.includes(4));
    assert!(Visibility::AllExcept { client: 4 }.includes(5));
    assert!(Visibility::Only { client: 4 }.includes(4));
    assert!(!Visibility::Only { client: 4 }.includes(5));
}

#[test]
fn player_sync_decision_matches_policy() {
    assert_eq!(
        decide_player_sync(true, 9),
        (SyncMode::Predicted, Visibility::All)
    );
    assert_eq!(
        decide_player_sync(false, 9),
        (SyncMode::Interpolated, Visibility::AllExcept { client: 9 })
    );
}

fn base_config() -> SimConfig {
    SimConfig {
        tick_duration_us: 15625,
        send_interval_ticks: 2,
        interpolation_delay_ticks: 3,
        min_input_delay_ticks: 1,
        correction_tolerance: 0,
        correction_smoothing_ticks: 4,
        catchup_budget_ticks: 8,
    }
}

#[test]
fn config_validation_reports_each_error() {
    assert_eq!(base_config().validated(), Ok(base_config()));
    let mut zero_tick = base_config();
    zero_tick.tick_duration_us = 0;
    assert_eq!(zero_tick.validated(), Err(ConfigError::ZeroTickDuration));
    let mut zero_send = base_config();
    zero_send.send_interval_ticks = 0;
    assert_eq!(zero_send.validated(), Err(ConfigError::ZeroSendInterval));
}

#[test]
fn config_delays_input_ticks() {
    let cfg = base_config();
    assert_eq!(cfg.delayed_input_tick(100), 101);
}

#[test]
fn client_transports_compare() {
    assert_eq!(ClientTransports::Udp, ClientTransports::Udp);
    assert_ne!(ClientTransports::Udp, ClientTransports::Steam { app_id: 4 });
}
