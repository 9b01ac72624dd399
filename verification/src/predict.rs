//! The predictor: for entities the local client controls, the simulation is
//! stepped every local tick with locally available input, without waiting
//! for server confirmation. The prediction history anchors at the last
//! confirmed tick and holds a contiguous entry for every tick after it up
//! to the current local tick — no gaps — so rollback-replay can resume from
//! any confirmed point.

use vstd::prelude::*;

use crate::commands::{CommandBuffer, CommandEntry, command_or_neutral};
use crate::sim::{Command, EntityState, run_spec, replay, step, step_spec};

verus! {

/// The commands effectively recorded for `entity` over `count` consecutive
/// ticks starting at `from_tick` (neutral where none was recorded) — the
/// inputs a replay re-runs.
pub open spec fn recorded_commands(
    s: Seq<CommandEntry>,
    entity: u64,
    from_tick: int,
    count: nat,
) -> Seq<Command> {
    Seq::new(count, |i: int| command_or_neutral(s, (from_tick + i) as u64, entity))
}

/// One predicted entity's simulated states for the ticks not yet confirmed.
/// The anchor is the state at the last confirmed (or spawn) tick; entry `i`
/// of `states` is the predicted state for tick `anchor_tick + 1 + i`.
/// Contiguity holds by construction: there is a state for every tick from
/// the anchor up to the newest predicted tick.
pub struct PredictionHistory {
    anchor_tick: u64,
    anchor_state: EntityState,
    states: Vec<EntityState>,
}

impl PredictionHistory {
    /// The last confirmed (or spawn) tick, below every predicted entry.
    pub closed spec fn anchor_tick(self) -> u64 {
        self.anchor_tick
    }

    /// The state at the anchor tick.
    pub closed spec fn anchor_state(self) -> EntityState {
        self.anchor_state
    }

    /// The predicted states, for ticks `anchor_tick + 1 ..= anchor_tick + len`.
    pub closed spec fn states(self) -> Seq<EntityState> {
        self.states@
    }

    /// The next tick to predict: one past the newest entry.
    pub open spec fn next_tick(self) -> int {
        self.anchor_tick() + 1 + self.states().len()
    }

    /// The newest tick that has a state, anchor included.
    pub open spec fn current_tick(self) -> int {
        self.anchor_tick() + self.states().len()
    }

    /// The newest state: the latest prediction, or the anchor before any.
    pub open spec fn current_state(self) -> EntityState {
        if self.states().len() > 0 {
            self.states().last()
        } else {
            self.anchor_state()
        }
    }

    /// A predicted (unconfirmed) entry exists for `tick`.
    pub open spec fn covers(self, tick: int) -> bool {
        self.anchor_tick() < tick < self.next_tick()
    }

    /// The predicted state for `tick`.
    pub open spec fn state_at(self, tick: int) -> EntityState {
        self.states()[tick - self.anchor_tick() - 1]
    }

    /// Every tick up to the newest stays a representable tick index.
    pub open spec fn wf(self) -> bool {
        self.next_tick() <= u64::MAX
    }

    /// Starts a history anchored at a confirmed (or spawn) state.
    pub fn new(anchor_tick: u64, state: EntityState) -> (h: PredictionHistory)
        requires
            anchor_tick < u64::MAX,
        ensures
            h.wf(),
            h.anchor_tick() == anchor_tick,
            h.anchor_state() == state,
            h.states() == Seq::<EntityState>::empty(),
    {
        PredictionHistory { anchor_tick, anchor_state: state, states: Vec::new() }
    }

    /// The number of predicted, not yet confirmed, entries.
    pub fn len(&self) -> (n: usize)
        ensures
            n == self.states().len(),
    {
        self.states.len()
    }

    /// The next tick to predict, read back.
    pub fn next_tick_now(&self) -> (t: u64)
        requires
            self.wf(),
        ensures
            t == self.next_tick(),
    {
        self.anchor_tick + 1 + (self.states.len() as u64)
    }

    /// The last confirmed (or spawn) tick, read back.
    pub fn last_confirmed_tick(&self) -> (t: u64)
        ensures
            t == self.anchor_tick(),
    {
        self.anchor_tick
    }

    /// The predicted state recorded for `tick`.
    pub fn state_for(&self, tick: u64) -> (st: EntityState)
        requires
            self.covers(tick as int),
        ensures
            st == self.state_at(tick as int),
    {
        let len = self.states.len();
        proof {
            assert(tick - self.anchor_tick() - 1 < len);
        }
        self.states[((tick - self.anchor_tick) - 1) as usize]
    }

    /// The newest state, read back for rendering or for the next step.
    pub fn current(&self) -> (st: EntityState)
        ensures
            st == self.current_state(),
    {
        if self.states.len() > 0 {
            self.states[self.states.len() - 1]
        } else {
            self.anchor_state
        }
    }

    /// Predicts the next tick: reads this entity's input for that tick from
    /// the local command buffer (neutral when absent), steps the simulation
    /// from the newest state, and appends the result. Contiguity is kept:
    /// the new entry is for exactly the next unpredicted tick.
    pub fn predict(&mut self, buf: &CommandBuffer, entity: u64) -> (next: EntityState)
        requires
            old(self).wf(),
            buf.wf(),
            old(self).next_tick() < u64::MAX,
        ensures
            final(self).wf(),
            final(self).anchor_tick() == old(self).anchor_tick(),
            final(self).anchor_state() == old(self).anchor_state(),
            final(self).states() == old(self).states().push(
                step_spec(
                    old(self).current_state(),
                    command_or_neutral(buf@, old(self).next_tick() as u64, entity),
                ),
            ),
            next == final(self).current_state(),
            final(self).next_tick() == old(self).next_tick() + 1,
    {
        let len = self.states.len();
        let tick: u64 = self.anchor_tick + 1 + (len as u64);
        let cmd = buf.get_or_neutral(tick, entity);
        let prior = self.current();
        let next = step(prior, cmd);
        self.states.push(next);
        next
    }

    /// Accepts a confirmation at `tick` that matched the prediction within
    /// tolerance: entries at or before `tick` are discarded (they have served
    /// their purpose), entries after it are kept unchanged, and the anchor
    /// moves to the locally predicted state at `tick`.
    pub fn confirm_at(&mut self, tick: u64)
        requires
            old(self).wf(),
            old(self).covers(tick as int),
        ensures
            final(self).wf(),
            final(self).anchor_tick() == tick,
            final(self).anchor_state() == old(self).state_at(tick as int),
            final(self).states() == old(self).states().subrange(
                tick - old(self).anchor_tick(),
                old(self).states().len() as int,
            ),
            final(self).next_tick() == old(self).next_tick(),
    {
        let ghost s = self.states@;
        let idx: usize = ((tick - self.anchor_tick) - 1) as usize;
        let confirmed = self.states[idx];
        let n = self.states.len();
        let mut kept: Vec<EntityState> = Vec::new();
        let mut i: usize = idx + 1;
        while i < n
            invariant
                n == self.states@.len(),
                idx < i <= n,
                s == self.states@,
                kept@ == s.subrange(idx + 1, i as int),
            decreases n - i,
        {
            proof {
                assert(s.subrange(idx + 1, i + 1) =~= s.subrange(idx + 1, i as int).push(
                    s[i as int],
                ));
            }
            kept.push(self.states[i]);
            i = i + 1;
        }
        self.anchor_tick = tick;
        self.anchor_state = confirmed;
        self.states = kept;
    }

    /// Adopts an authoritative state at `tick` that diverged from the
    /// prediction: the anchor snaps to the authoritative value and every
    /// later tick already recorded is re-simulated from it, using the
    /// commands originally recorded for those ticks (neutral where none
    /// was). The newest predicted tick is unchanged.
    pub fn replay_from(&mut self, tick: u64, auth: EntityState, buf: &CommandBuffer, entity: u64)
        requires
            old(self).wf(),
            buf.wf(),
            old(self).covers(tick as int),
        ensures
            final(self).wf(),
            final(self).anchor_tick() == tick,
            final(self).anchor_state() == auth,
            final(self).states() == run_spec(
                auth,
                recorded_commands(
                    buf@,
                    entity,
                    tick + 1,
                    (old(self).next_tick() - tick - 1) as nat,
                ),
            ),
            final(self).next_tick() == old(self).next_tick(),
    {
        let count: usize = self.states.len() - ((tick - self.anchor_tick) as usize);
        let ghost cnt = count as nat;
        let mut cmds: Vec<Command> = Vec::new();
        let mut i: usize = 0;
        while i < count
            invariant
                i <= count,
                tick + 1 + count <= u64::MAX,
                buf.wf(),
                cmds@ == recorded_commands(buf@, entity, tick + 1, i as nat),
            decreases count - i,
        {
            let t: u64 = tick + 1 + (i as u64);
            let c = buf.get_or_neutral(t, entity);
            cmds.push(c);
            proof {
                assert(cmds@ =~= recorded_commands(buf@, entity, tick + 1, (i + 1) as nat));
            }
            i = i + 1;
        }
        let states = replay(auth, &cmds);
        proof {
            crate::sim::lemma_run_spec_len(auth, cmds@);
        }
        self.anchor_tick = tick;
        self.anchor_state = auth;
        self.states = states;
    }

    /// Accepts an authoritative state for a tick at or beyond anything ever
    /// predicted (after a stall): the history restarts from it.
    pub fn reset_to(&mut self, tick: u64, auth: EntityState)
        requires
            tick < u64::MAX,
        ensures
            final(self).wf(),
            final(self).anchor_tick() == tick,
            final(self).anchor_state() == auth,
            final(self).states() == Seq::<EntityState>::empty(),
    {
        self.anchor_tick = tick;
        self.anchor_state = auth;
        self.states = Vec::new();
    }
}

} // verus!
