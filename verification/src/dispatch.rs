//! The key-event dispatcher: from a key event and the binding table to the
//! requests that a worker sends.
//!
//! A worker reads events from its device, hands each one to
//! [`Dispatcher::on_event`] and performs the plan that comes back before it
//! reads the next event.

use crate::binding::{Action, Entry, KeyType, Phase};
use crate::device::{decode, phase_of};
use crate::table::{lemma_flip_keeps_wf, BindingTable, TableState};
use vstd::prelude::*;

verus! {

/// What a key event asks of one row, where `muted` is the toggle state of the
/// row's endpoint when the row's turn comes.
///
/// A held key unmutes and a released one mutes again, after the release delay
/// if there is one. A press on a toggle key sends the flipped state; a release
/// of a toggle key, and any event of another key, sends nothing.
pub open spec fn entry_actions(
    e: Entry,
    muted: bool,
    key: u16,
    phase: Phase,
    release_delay: u64,
) -> Seq<Action> {
    if e.key != key {
        Seq::empty()
    } else {
        match (e.mode, phase) {
            (KeyType::Hold, Phase::Press) => seq![
                Action::SetMute { handle: e.handle, mute: false },
            ],
            (KeyType::Hold, Phase::Release) => if release_delay > 0 {
                seq![
                    Action::Sleep { millis: release_delay },
                    Action::SetMute { handle: e.handle, mute: true },
                ]
            } else {
                seq![Action::SetMute { handle: e.handle, mute: true }]
            },
            (KeyType::Toggle, Phase::Press) => seq![
                Action::SetMute { handle: e.handle, mute: !muted },
            ],
            (KeyType::Toggle, Phase::Release) => Seq::empty(),
        }
    }
}

/// Whether a key event flips the toggle state of the endpoint of the row `e`.
pub open spec fn flips(e: Entry, key: u16, phase: Phase) -> bool {
    e.key == key && e.mode == KeyType::Toggle && phase == Phase::Press
}

/// The table once the first `n` rows have had their turn.
pub open spec fn state_after(t: TableState, n: int, key: u16, phase: Phase) -> TableState
    decreases n,
{
    if n <= 0 {
        t
    } else {
        let before = state_after(t, n - 1, key, phase);
        let e = t.entries[n - 1];
        if flips(e, key, phase) {
            before.flip(e.server_id)
        } else {
            before
        }
    }
}

/// The requests of the first `n` rows, in the order of the rows.
pub open spec fn requests_after(
    t: TableState,
    n: int,
    key: u16,
    phase: Phase,
    release_delay: u64,
) -> Seq<Action>
    decreases n,
{
    if n <= 0 {
        Seq::empty()
    } else {
        let e = t.entries[n - 1];
        let muted = state_after(t, n - 1, key, phase).muted(e.server_id);
        requests_after(t, n - 1, key, phase, release_delay) + entry_actions(
            e,
            muted,
            key,
            phase,
            release_delay,
        )
    }
}

/// A batch of requests made into a plan: the barrier comes after the last
/// request, and a batch without requests needs none.
pub open spec fn with_barrier(requests: Seq<Action>) -> Seq<Action> {
    if requests.len() == 0 {
        requests
    } else {
        requests.push(Action::Barrier)
    }
}

impl TableState {
    /// The table after a key event: every row has had its turn.
    pub open spec fn on_event(self, key: u16, phase: Phase) -> TableState {
        state_after(self, self.entries.len() as int, key, phase)
    }

    /// The plan for a key event: the requests of all rows, then the barrier if
    /// anything was requested.
    pub open spec fn plan(self, key: u16, phase: Phase, release_delay: u64) -> Seq<Action> {
        with_barrier(requests_after(self, self.entries.len() as int, key, phase, release_delay))
    }
}

/// A key event leaves the rows and the handle counter alone.
pub proof fn lemma_event_keeps_rows(t: TableState, n: int, key: u16, phase: Phase)
    requires
        0 <= n <= t.entries.len(),
    ensures
        state_after(t, n, key, phase).entries == t.entries,
        state_after(t, n, key, phase).next_handle == t.next_handle,
    decreases n,
{
    if n > 0 {
        lemma_event_keeps_rows(t, n - 1, key, phase);
    }
}

/// A key event keeps a table well formed.
pub proof fn lemma_event_keeps_wf(t: TableState, n: int, key: u16, phase: Phase)
    requires
        t.wf(),
        0 <= n <= t.entries.len(),
    ensures
        state_after(t, n, key, phase).wf(),
    decreases n,
{
    if n > 0 {
        lemma_event_keeps_wf(t, n - 1, key, phase);
        lemma_event_keeps_rows(t, n - 1, key, phase);
        if flips(t.entries[n - 1], key, phase) {
            lemma_flip_keeps_wf(state_after(t, n - 1, key, phase), n - 1);
        }
    }
}

/// The dispatcher of one worker.
#[derive(Clone, Copy, Debug)]
pub struct Dispatcher {
    /// Milliseconds to wait after a hold key was released before muting again.
    pub release_delay: u64,
}

impl Dispatcher {
    /// A dispatcher that waits `release_delay` milliseconds before it mutes
    /// after a release.
    pub fn new(release_delay: u64) -> (d: Self)
        ensures
            d.release_delay == release_delay,
    {
        Dispatcher { release_delay }
    }

    /// Handles one key event: updates the toggle states in `table` and returns
    /// what to do, in order. An event of a key that controls nothing changes
    /// nothing and returns the empty plan.
    pub fn on_event(&self, table: &mut BindingTable, key: u16, phase: Phase) -> (plan: Vec<Action>)
        ensures
            final(table)@.wf(),
            final(table)@ == old(table)@.on_event(key, phase),
            plan@ == old(table)@.plan(key, phase, self.release_delay),
    {
        proof {
            use_type_invariant(&*table);
        }
        let mut plan: Vec<Action> = Vec::new();
        let n = table.len();
        let mut i: usize = 0;
        while i < n
            invariant
                i <= n,
                n == old(table)@.entries.len(),
                table@.wf(),
                table@ == state_after(old(table)@, i as int, key, phase),
                table@.entries == old(table)@.entries,
                plan@ == requests_after(old(table)@, i as int, key, phase, self.release_delay),
            decreases n - i,
        {
            match table.entry(i) {
                Some(e) => {
                    if e.key == key {
                        match (e.mode, phase) {
                            (KeyType::Hold, Phase::Press) => {
                                plan.push(Action::SetMute { handle: e.handle, mute: false });
                            },
                            (KeyType::Hold, Phase::Release) => {
                                if self.release_delay > 0 {
                                    plan.push(Action::Sleep { millis: self.release_delay });
                                }
                                plan.push(Action::SetMute { handle: e.handle, mute: true });
                            },
                            (KeyType::Toggle, Phase::Press) => {
                                match table.toggle_at(i) {
                                    Some(mute) => {
                                        plan.push(Action::SetMute { handle: e.handle, mute });
                                    },
                                    None => {},
                                }
                            },
                            (KeyType::Toggle, Phase::Release) => {},
                        }
                    }
                },
                None => {},
            }
            i += 1;
        }
        if plan.len() > 0 {
            plan.push(Action::Barrier);
        }
        plan
    }

    /// Handles one raw input event with the fields `event_type`, `code` and
    /// `value`. A press or a release of a key is handled as
    /// [`Dispatcher::on_event`] says. Anything else, an automatic repeat
    /// included, changes nothing and returns the empty plan.
    pub fn on_input(
        &self,
        table: &mut BindingTable,
        event_type: u16,
        code: u16,
        value: i32,
    ) -> (plan: Vec<Action>)
        ensures
            final(table)@.wf(),
            match phase_of(event_type, value) {
                Some(phase) => {
                    &&& final(table)@ == old(table)@.on_event(code, phase)
                    &&& plan@ == old(table)@.plan(code, phase, self.release_delay)
                },
                None => final(table)@ == old(table)@ && plan@ == Seq::<Action>::empty(),
            },
    {
        match decode(event_type, value) {
            Some(phase) => self.on_event(table, code, phase),
            None => {
                proof {
                    use_type_invariant(&*table);
                }
                Vec::new()
            },
        }
    }
}

} // verus!
