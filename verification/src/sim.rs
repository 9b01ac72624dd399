//! The deterministic simulation step: entity state, input commands, and the
//! replay of a command sequence. The step function is pure, so replaying an
//! identical command sequence from an identical state reproduces the history
//! exactly; prediction and rollback-replay both rest on this.

use vstd::prelude::*;

verus! {

/// One entity's intent for one tick: a movement direction in world units per
/// tick. Absence of input is the neutral command, which moves nothing.
#[derive(Clone, Copy, PartialEq, Eq, Structural, Debug)]
pub struct Command {
    pub dx: i64,
    pub dy: i64,
}

/// A replicated entity's component values at some tick: here a position.
/// All coordinates are integers (fixed-point world units), so that the step
/// function is exactly deterministic across machines.
#[derive(Clone, Copy, PartialEq, Eq, Structural, Debug)]
pub struct EntityState {
    pub x: i64,
    pub y: i64,
}

impl Command {
    pub open spec fn neutral_spec() -> Command {
        Command { dx: 0, dy: 0 }
    }

    /// The neutral command, used when no input was recorded for a tick.
    pub fn neutral() -> (c: Command)
        ensures
            c == Command::neutral_spec(),
    {
        Command { dx: 0, dy: 0 }
    }
}

/// Addition on coordinates saturates at the representable range, so the step
/// function is total: no input sequence can make it fail.
pub open spec fn sat_add_spec(a: int, b: int) -> int {
    if a + b > i64::MAX as int {
        i64::MAX as int
    } else if a + b < i64::MIN as int {
        i64::MIN as int
    } else {
        a + b
    }
}

pub fn sat_add(a: i64, b: i64) -> (r: i64)
    ensures
        r as int == sat_add_spec(a as int, b as int),
{
    if b >= 0 {
        if a > i64::MAX - b {
            i64::MAX
        } else {
            a + b
        }
    } else {
        if a < i64::MIN - b {
            i64::MIN
        } else {
            a + b
        }
    }
}

/// The deterministic step function: the next state is the prior state moved
/// by the command's direction. Pure and side-effect-free, as replay
/// equivalence requires.
pub open spec fn step_spec(s: EntityState, c: Command) -> EntityState {
    EntityState {
        x: sat_add_spec(s.x as int, c.dx as int) as i64,
        y: sat_add_spec(s.y as int, c.dy as int) as i64,
    }
}

pub fn step(s: EntityState, c: Command) -> (next: EntityState)
    ensures
        next == step_spec(s, c),
{
    EntityState { x: sat_add(s.x, c.dx), y: sat_add(s.y, c.dy) }
}

/// The state reached after applying every command of `cmds`, in order,
/// starting from `start`.
pub open spec fn fold_steps(start: EntityState, cmds: Seq<Command>) -> EntityState
    decreases cmds.len(),
{
    if cmds.len() == 0 {
        start
    } else {
        step_spec(fold_steps(start, cmds.drop_last()), cmds.last())
    }
}

/// The whole history produced by applying `cmds` in order: entry `i` is the
/// state after the first `i + 1` commands.
pub open spec fn run_spec(start: EntityState, cmds: Seq<Command>) -> Seq<EntityState>
    decreases cmds.len(),
{
    if cmds.len() == 0 {
        Seq::empty()
    } else {
        run_spec(start, cmds.drop_last()).push(fold_steps(start, cmds))
    }
}

pub proof fn lemma_run_spec_len(start: EntityState, cmds: Seq<Command>)
    ensures
        run_spec(start, cmds).len() == cmds.len(),
    decreases cmds.len(),
{
    if cmds.len() > 0 {
        lemma_run_spec_len(start, cmds.drop_last());
    }
}

/// Replays a command sequence from a starting state, producing the state
/// after each command.
pub fn replay(start: EntityState, cmds: &Vec<Command>) -> (states: Vec<EntityState>)
    ensures
        states@ == run_spec(start, cmds@),
{
    let mut states: Vec<EntityState> = Vec::new();
    let mut cur = start;
    let mut i: usize = 0;
    while i < cmds.len()
        invariant
            i <= cmds.len(),
            states@ == run_spec(start, cmds@.take(i as int)),
            cur == fold_steps(start, cmds@.take(i as int)),
        decreases cmds.len() - i,
    {
        cur = step(cur, cmds[i]);
        proof {
            assert(cmds@.take(i + 1).drop_last() =~= cmds@.take(i as int));
            assert(cmds@.take(i + 1).last() == cmds@[i as int]);
        }
        states.push(cur);
        i = i + 1;
    }
    proof {
        assert(cmds@.take(cmds@.len() as int) =~= cmds@);
    }
    states
}

/// Determinism: replaying an identical sequence of commands from an identical
/// starting state yields an identical state history on any two runs.
pub proof fn lemma_replay_deterministic(
    start: EntityState,
    cmds: Seq<Command>,
    first_run: Seq<EntityState>,
    second_run: Seq<EntityState>,
)
    requires
        first_run == run_spec(start, cmds),
        second_run == run_spec(start, cmds),
    ensures
        first_run == second_run,
{
}

} // verus!
