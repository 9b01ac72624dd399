//! The command buffer: per-entity, tick-stamped input commands, owned by
//! whichever side issued them. Commands are write-once per (entity, tick);
//! a read for a missing tick yields the neutral command, never an error —
//! absence of input is a normal condition. Old entries are pruned once a
//! retention horizon passes them.

use vstd::prelude::*;

use crate::sim::Command;

verus! {

/// One recorded input: which entity intends what at which tick.
#[derive(Clone, Copy, PartialEq, Eq, Structural, Debug)]
pub struct CommandEntry {
    pub tick: u64,
    pub entity: u64,
    pub command: Command,
}

/// Entry `i` of `s` carries the key `(tick, entity)`.
pub open spec fn key_at(s: Seq<CommandEntry>, i: int, tick: u64, entity: u64) -> bool {
    0 <= i < s.len() && s[i].tick == tick && s[i].entity == entity
}

/// Some entry of `s` carries the key `(tick, entity)`.
pub open spec fn has_command(s: Seq<CommandEntry>, tick: u64, entity: u64) -> bool {
    exists|i: int| key_at(s, i, tick, entity)
}

/// The command recorded under the key `(tick, entity)`; meaningful when the
/// key occurs exactly once.
pub open spec fn command_at(s: Seq<CommandEntry>, tick: u64, entity: u64) -> Command {
    s[choose|i: int| key_at(s, i, tick, entity)].command
}

/// The input effectively read for `(tick, entity)`: the recorded command,
/// or the neutral command when none was recorded.
pub open spec fn command_or_neutral(s: Seq<CommandEntry>, tick: u64, entity: u64) -> Command {
    if has_command(s, tick, entity) {
        command_at(s, tick, entity)
    } else {
        Command::neutral_spec()
    }
}

/// No two entries of `s` share a key: commands are write-once.
pub open spec fn unique_keys(s: Seq<CommandEntry>) -> bool {
    forall|i: int, j: int|
        #![trigger s[i], s[j]]
        0 <= i < j < s.len() ==> !(s[i].tick == s[j].tick && s[i].entity == s[j].entity)
}

/// The entries of `s` that survive pruning everything before `before`,
/// in their original order.
pub open spec fn kept_commands(s: Seq<CommandEntry>, before: u64) -> Seq<CommandEntry>
    decreases s.len(),
{
    if s.len() == 0 {
        Seq::empty()
    } else {
        let prefix = kept_commands(s.drop_last(), before);
        if s.last().tick >= before {
            prefix.push(s.last())
        } else {
            prefix
        }
    }
}

/// Pruning keeps only entries at or after the horizon, each one an entry of
/// the original buffer, and preserves write-once uniqueness.
pub proof fn lemma_kept_commands(s: Seq<CommandEntry>, before: u64)
    requires
        unique_keys(s),
    ensures
        unique_keys(kept_commands(s, before)),
        forall|i: int| 0 <= i < kept_commands(s, before).len()
            ==> (#[trigger] kept_commands(s, before)[i]).tick >= before,
        forall|i: int| 0 <= i < kept_commands(s, before).len()
            ==> exists|m: int| 0 <= m < s.len() && s[m] == #[trigger] kept_commands(s, before)[i],
    decreases s.len(),
{
    if s.len() > 0 {
        let s0 = s.drop_last();
        assert(unique_keys(s0));
        lemma_kept_commands(s0, before);
        let k0 = kept_commands(s0, before);
        assert forall|i: int| 0 <= i < k0.len()
            implies exists|m: int| 0 <= m < s.len() && s[m] == #[trigger] k0[i] by {
            let m = choose|m: int| 0 <= m < s0.len() && s0[m] == k0[i];
            assert(s[m] == k0[i]);
        }
        if s.last().tick >= before {
            let k = kept_commands(s, before);
            assert(k == k0.push(s.last()));
            assert forall|i: int, j: int|
                #![trigger k[i], k[j]]
                0 <= i < j < k.len()
                implies !(k[i].tick == k[j].tick && k[i].entity == k[j].entity) by {
                if j == k.len() - 1 {
                    let m = choose|m: int| 0 <= m < s0.len() && s0[m] == k0[i];
                    assert(s[m] == k[i]);
                    assert(s[s.len() - 1] == k[j]);
                }
            }
        }
    }
}

/// A buffer of timestamped input commands, write-once per (entity, tick).
pub struct CommandBuffer {
    entries: Vec<CommandEntry>,
}

impl View for CommandBuffer {
    type V = Seq<CommandEntry>;

    closed spec fn view(&self) -> Seq<CommandEntry> {
        self.entries@
    }
}

impl CommandBuffer {
    /// Write-once holds: no two recorded entries share an (entity, tick) key.
    pub open spec fn wf(self) -> bool {
        unique_keys(self@)
    }

    pub fn new() -> (buf: CommandBuffer)
        ensures
            buf@ == Seq::<CommandEntry>::empty(),
            buf.wf(),
    {
        CommandBuffer { entries: Vec::new() }
    }

    /// Records a command for `(entity, tick)`, unless one is already there:
    /// commands are write-once. Returns whether it was recorded.
    pub fn record(&mut self, tick: u64, entity: u64, command: Command) -> (recorded: bool)
        requires
            old(self).wf(),
        ensures
            final(self).wf(),
            recorded == !has_command(old(self)@, tick, entity),
            recorded ==> final(self)@ == old(self)@.push(
                CommandEntry { tick, entity, command },
            ),
            !recorded ==> final(self)@ == old(self)@,
    {
        match self.get(tick, entity) {
            Some(_) => false,
            None => {
                let ghost s0 = self@;
                self.entries.push(CommandEntry { tick, entity, command });
                proof {
                    let s = self@;
                    assert forall|i: int, j: int|
                        #![trigger s[i], s[j]]
                        0 <= i < j < s.len()
                        implies !(s[i].tick == s[j].tick && s[i].entity == s[j].entity) by {
                        if j == s.len() - 1 {
                            if s[i].tick == tick && s[i].entity == entity {
                                assert(key_at(s0, i, tick, entity));
                            }
                        } else {
                            assert(s0[i] == s[i] && s0[j] == s[j]);
                        }
                    }
                }
                true
            },
        }
    }

    /// Looks up the command recorded for `(entity, tick)`, if any.
    pub fn get(&self, tick: u64, entity: u64) -> (r: Option<Command>)
        requires
            self.wf(),
        ensures
            r is Some <==> has_command(self@, tick, entity),
            r matches Some(c) ==> c == command_at(self@, tick, entity),
    {
        let n = self.entries.len();
        let mut i: usize = 0;
        while i < n
            invariant
                n == self.entries.len(),
                i <= n,
                self.wf(),
                forall|k: int| 0 <= k < i
                    ==> !((#[trigger] self.entries@[k]).tick == tick
                        && self.entries@[k].entity == entity),
            decreases n - i,
        {
            let e = self.entries[i];
            if e.tick == tick && e.entity == entity {
                proof {
                    let s = self@;
                    assert(key_at(s, i as int, tick, entity));
                    let j = choose|j: int| key_at(s, j, tick, entity);
                    assert(s[j] == s[i as int]) by {
                        if j != i as int {
                            assert(!(s[j].tick == s[i as int].tick
                                && s[j].entity == s[i as int].entity));
                        }
                    }
                }
                return Some(e.command);
            }
            i = i + 1;
        }
        proof {
            if has_command(self@, tick, entity) {
                let j = choose|j: int| key_at(self@, j, tick, entity);
                assert(!(self.entries@[j].tick == tick && self.entries@[j].entity == entity));
            }
        }
        None
    }

    /// Reads the input for `(entity, tick)`: the recorded command, or the
    /// neutral command when none was recorded. A missing tick is a normal
    /// condition (packet not arrived, or no input issued), never an error.
    pub fn get_or_neutral(&self, tick: u64, entity: u64) -> (c: Command)
        requires
            self.wf(),
        ensures
            c == command_or_neutral(self@, tick, entity),
    {
        match self.get(tick, entity) {
            Some(c) => c,
            None => Command::neutral(),
        }
    }

    /// Drops every entry strictly before `before`: the retention horizon has
    /// passed them (they are acknowledged or expired).
    pub fn prune(&mut self, before: u64)
        requires
            old(self).wf(),
        ensures
            final(self).wf(),
            final(self)@ == kept_commands(old(self)@, before),
    {
        let ghost s = self@;
        let n = self.entries.len();
        let mut kept: Vec<CommandEntry> = Vec::new();
        let mut i: usize = 0;
        while i < n
            invariant
                n == self.entries.len(),
                i <= n,
                s == self.entries@,
                kept@ == kept_commands(s.take(i as int), before),
            decreases n - i,
        {
            let e = self.entries[i];
            proof {
                assert(s.take(i + 1).drop_last() =~= s.take(i as int));
                assert(s.take(i + 1).last() == s[i as int]);
            }
            if e.tick >= before {
                kept.push(e);
            }
            i = i + 1;
        }
        proof {
            assert(s.take(n as int) =~= s);
            lemma_kept_commands(s, before);
        }
        self.entries = kept;
    }
}

} // verus!
