//! The handles: once the endpoint of a handle is forgotten, the handle is
//! never used again.
//!
//! The watcher and the dispatchers work on the table one at a time. A life of
//! the table is therefore a sequence of steps, in whatever order the workers
//! got their turns, and what is shown here of every sequence holds of every
//! interleaving.

use crate::binding::{Action, Binding, Entry, Global, KeyType, Phase};
use crate::dispatch::{lemma_event_keeps_rows, lemma_event_keeps_wf, with_barrier};
use crate::laws::announcements::law_announcement_uses_fresh_handles;
use crate::laws::plans::lemma_requests_name_live_rows;
use crate::table::{
    handle_of, lemma_insert_keeps_wf, lemma_remove_keeps_wf, of_endpoint, of_other_endpoint,
    on_key, TableState,
};
use crate::watcher::bind_requests_after;
use vstd::prelude::*;

verus! {

/// One step in the life of a table.
pub enum TableOp {
    /// The watcher binds an endpoint.
    Bind { server_id: u32, key: u16, mode: KeyType },
    /// The watcher forgets an endpoint.
    Forget { server_id: u32 },
    /// The dispatcher handles a key event.
    Event { key: u16, phase: Phase },
}

impl TableState {
    /// The table after one step. Binding without a handle left changes
    /// nothing.
    pub open spec fn apply(self, op: TableOp) -> TableState {
        match op {
            TableOp::Bind { server_id, key, mode } => if self.has_room() {
                self.insert(server_id, key, mode)
            } else {
                self
            },
            TableOp::Forget { server_id } => self.remove(server_id),
            TableOp::Event { key, phase } => self.on_event(key, phase),
        }
    }

    /// The table after the first `n` of `ops`.
    pub open spec fn run(self, ops: Seq<TableOp>, n: int) -> TableState
        decreases n,
    {
        if n <= 0 {
            self
        } else {
            self.run(ops, n - 1).apply(ops[n - 1])
        }
    }

    /// Whether `handle` was handed out and no live row holds it any more.
    pub open spec fn is_dead(self, handle: u64) -> bool {
        handle < self.next_handle && !self.is_live(handle)
    }
}

/// The handle that an action is addressed to, if it is addressed to one.
pub open spec fn addressee(a: Action) -> Option<u64> {
    match a {
        Action::Bind { handle, server_id } => Some(handle),
        Action::Unbind { handle } => Some(handle),
        Action::SetMute { handle, mute } => Some(handle),
        Action::Sleep { millis } => None,
        Action::Barrier => None,
    }
}

/// Every row that a filter keeps is a row of the table, so its handle is
/// live, and it meets the filter's condition.
pub proof fn lemma_kept_rows_are_rows(t: TableState, keep: spec_fn(Entry) -> bool, k: int)
    requires
        0 <= k < t.entries.filter(keep).len(),
    ensures
        keep(t.entries.filter(keep)[k]),
        t.is_live(t.entries.filter(keep)[k].handle),
        t.entries.contains(t.entries.filter(keep)[k]),
{
    let kept = t.entries.filter(keep);
    assert(kept.contains(kept[k]));
    t.entries.lemma_filter_contains_rev(keep, kept[k]);
    let j = choose|j: int| 0 <= j < t.entries.len() && t.entries[j] == kept[k];
    assert(t.entries[j].handle == kept[k].handle);
}

/// The handles of a forgotten endpoint were live and are dead at once, and
/// none of the rows that are left binds the endpoint.
pub proof fn lemma_forgotten_handles_are_dead(t: TableState, server_id: u32, handle: u64)
    requires
        t.wf(),
        t.handles_of(server_id).contains(handle),
    ensures
        t.is_live(handle),
        t.remove(server_id).is_dead(handle),
        forall|k: int|
            0 <= k < t.remove(server_id).entries.len() ==> (#[trigger] t.remove(
                server_id,
            ).entries[k]).server_id != server_id,
{
    let mine = t.entries.filter(of_endpoint(server_id));
    let rest = t.remove(server_id).entries;
    let at = choose|k: int| 0 <= k < mine.len() && mine.map_values(handle_of())[k] == handle;
    lemma_kept_rows_are_rows(t, of_endpoint(server_id), at);
    let i = choose|i: int| 0 <= i < t.entries.len() && t.entries[i] == mine[at];
    assert forall|k: int| 0 <= k < rest.len() implies (#[trigger] rest[k]).server_id != server_id
        && rest[k].handle != handle by {
        lemma_kept_rows_are_rows(t, of_other_endpoint(server_id), k);
        let j = choose|j: int| 0 <= j < t.entries.len() && t.entries[j] == rest[k];
        assert(i != j);
        assert(t.entries[i].handle != t.entries[j].handle);
    }
}

/// No step brings a dead handle back: a new row gets a handle that was never
/// handed out, forgetting only takes rows away, and a key event leaves the
/// rows alone.
pub proof fn lemma_dead_stays_dead(t: TableState, op: TableOp, handle: u64)
    requires
        t.wf(),
        t.is_dead(handle),
    ensures
        t.apply(op).wf(),
        t.apply(op).is_dead(handle),
{
    match op {
        TableOp::Bind { server_id, key, mode } => {
            if t.has_room() {
                lemma_insert_keeps_wf(t, server_id, key, mode);
            }
        },
        TableOp::Forget { server_id } => {
            let after = t.remove(server_id);
            lemma_remove_keeps_wf(t, server_id);
            assert forall|k: int| 0 <= k < after.entries.len() implies (
            #[trigger] after.entries[k]).handle != handle by {
                lemma_kept_rows_are_rows(t, of_other_endpoint(server_id), k);
            }
        },
        TableOp::Event { key, phase } => {
            lemma_event_keeps_rows(t, t.entries.len() as int, key, phase);
            lemma_event_keeps_wf(t, t.entries.len() as int, key, phase);
        },
    }
}

/// No run of steps brings a dead handle back.
pub proof fn lemma_run_keeps_dead(t: TableState, ops: Seq<TableOp>, n: int, handle: u64)
    requires
        t.wf(),
        t.is_dead(handle),
        0 <= n <= ops.len(),
    ensures
        t.run(ops, n).wf(),
        t.run(ops, n).is_dead(handle),
    decreases n,
{
    if n > 0 {
        lemma_run_keeps_dead(t, ops, n - 1, handle);
        lemma_dead_stays_dead(t.run(ops, n - 1), ops[n - 1], handle);
    }
}

/// Once an endpoint has been forgotten, the handles that its rows held are
/// out of use for good. Whatever happens to the table afterwards, no row holds
/// one of them, no lookup finds one, and no plan addresses one, neither a plan
/// of the dispatcher nor one of the watcher, even if the server gives the
/// endpoint's identifier to a new endpoint.
pub proof fn law_forgotten_handles_stay_dead(
    t: TableState,
    server_id: u32,
    handle: u64,
    later: Seq<TableOp>,
    key: u16,
    phase: Phase,
    release_delay: u64,
    bindings: Seq<Binding>,
    global: Global,
)
    requires
        t.wf(),
        t.handles_of(server_id).contains(handle),
    ensures
        ({
            let after = t.remove(server_id).run(later, later.len() as int);
            let found = after.lookup(key);
            let sent = after.plan(key, phase, release_delay);
            let bound = with_barrier(
                bind_requests_after(after, bindings, global, bindings.len() as int),
            );
            &&& t.is_live(handle)
            &&& after.wf()
            &&& !after.is_live(handle)
            &&& forall|k: int| 0 <= k < found.len() ==> (#[trigger] found[k]).handle != handle
            &&& forall|k: int| 0 <= k < sent.len() ==> addressee(#[trigger] sent[k]) != Some(handle)
            &&& forall|k: int|
                0 <= k < bound.len() ==> addressee(#[trigger] bound[k]) != Some(handle)
        }),
{
    lemma_forgotten_handles_are_dead(t, server_id, handle);
    lemma_remove_keeps_wf(t, server_id);
    lemma_run_keeps_dead(t.remove(server_id), later, later.len() as int, handle);
    let after = t.remove(server_id).run(later, later.len() as int);
    lemma_requests_name_live_rows(after, after.entries.len() as int, key, phase, release_delay);
    law_announcement_uses_fresh_handles(after, bindings, global, bindings.len() as int);
    assert forall|k: int| 0 <= k < after.lookup(key).len() implies (#[trigger] after.lookup(
        key,
    )[k]).handle != handle by {
        lemma_kept_rows_are_rows(after, on_key(key), k);
    }
}

} // verus!
