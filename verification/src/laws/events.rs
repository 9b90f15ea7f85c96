//! A key event said at once: the plan and the new toggle states, without
//! going through the rows one after the other.

use crate::binding::{Action, Phase};
use crate::dispatch::{entry_actions, lemma_event_keeps_rows, requests_after, with_barrier};
use crate::laws::toggles::{flipping, lemma_flips_count};
use crate::table::TableState;
use vstd::prelude::*;

verus! {

/// The toggle state that the endpoint of the row at `i` is in when the row's
/// turn comes: the state before the event, changed exactly if an odd number of
/// earlier rows flips it.
pub open spec fn muted_at_turn(t: TableState, i: int, key: u16, phase: Phase) -> bool {
    let id = t.entries[i].server_id;
    t.muted(id) == (t.entries.take(i).filter(flipping(id, key, phase)).len() % 2 == 0)
}

/// What each row asks for, row by row.
pub open spec fn requests_by_row(
    t: TableState,
    key: u16,
    phase: Phase,
    release_delay: u64,
) -> Seq<Seq<Action>> {
    Seq::new(
        t.entries.len(),
        |i: int|
            entry_actions(t.entries[i], muted_at_turn(t, i, key, phase), key, phase, release_delay),
    )
}

/// The toggle states after a key event: an endpoint is unmuted exactly if its
/// state before the event, changed by an odd number of flipping rows and kept
/// by an even number, is "unmuted".
pub open spec fn unmuted_after(t: TableState, key: u16, phase: Phase) -> Set<u32> {
    Set::new(
        |id: u32|
            t.muted(id) != (t.entries.filter(flipping(id, key, phase)).len() % 2 == 0),
    )
}

/// The requests of the first `n` rows are what those rows ask for, put one
/// after the other.
pub proof fn lemma_requests_by_row(
    t: TableState,
    n: int,
    key: u16,
    phase: Phase,
    release_delay: u64,
)
    requires
        0 <= n <= t.entries.len(),
    ensures
        requests_after(t, n, key, phase, release_delay) == requests_by_row(
            t,
            key,
            phase,
            release_delay,
        ).take(n).flatten(),
    decreases n,
{
    let rows = requests_by_row(t, key, phase, release_delay);
    if n > 0 {
        lemma_requests_by_row(t, n - 1, key, phase, release_delay);
        lemma_flips_count(t, n - 1, t.entries[n - 1].server_id, key, phase);
        assert(rows.take(n) == rows.take(n - 1).push(rows[n - 1]));
        rows.take(n - 1).lemma_flatten_push(rows[n - 1]);
    }
}

/// A key event in one piece. The plan is what the rows ask for, put one after
/// the other in the order of the rows and closed by the barrier if it is
/// anything at all. The rows stay, and the toggle state of an endpoint
/// changes exactly if an odd number of rows flips it. A release flips
/// nothing.
pub proof fn law_event_in_one_piece(t: TableState, key: u16, phase: Phase, release_delay: u64)
    ensures
        t.plan(key, phase, release_delay) == with_barrier(
            requests_by_row(t, key, phase, release_delay).flatten(),
        ),
        t.on_event(key, phase) == (TableState {
            entries: t.entries,
            unmuted: unmuted_after(t, key, phase),
            next_handle: t.next_handle,
        }),
        phase == Phase::Release ==> t.on_event(key, phase) == t,
{
    let n = t.entries.len() as int;
    let rows = requests_by_row(t, key, phase, release_delay);
    lemma_requests_by_row(t, n, key, phase, release_delay);
    assert(rows.take(n) == rows);
    assert(t.entries.take(n) == t.entries);
    assert forall|id: u32| t.on_event(key, phase).unmuted.contains(id) == unmuted_after(
        t,
        key,
        phase,
    ).contains(id) by {
        lemma_flips_count(t, n, id, key, phase);
    }
    lemma_event_keeps_rows(t, n, key, phase);
    if phase == Phase::Release {
        assert forall|id: u32| unmuted_after(t, key, phase).contains(id) == t.unmuted.contains(
            id,
        ) by {
            t.entries.lemma_all_neg_filter_empty(flipping(id, key, phase));
        }
    }
}

} // verus!
