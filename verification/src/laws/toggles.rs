//! The toggle states: how key events change them, and what a toggle binding
//! sends press after press.

use crate::binding::{Action, Entry, KeyType, Phase};
use crate::dispatch::{
    entry_actions, flips, lemma_event_keeps_rows, lemma_event_keeps_wf, requests_after,
    state_after,
};
use crate::laws::plans::{
    lemma_filter_map_add, lemma_mutes_of_entry, lemma_plan_sends, mutes_for,
};
use crate::table::TableState;
use vstd::prelude::*;

verus! {

/// The rows through which a key event flips the toggle state of the endpoint
/// `server_id`.
pub open spec fn flipping(server_id: u32, key: u16, phase: Phase) -> spec_fn(Entry) -> bool {
    |e: Entry| flips(e, key, phase) && e.server_id == server_id
}

/// The toggle state of an endpoint once the first `n` rows have had their
/// turn: it has changed exactly if an odd number of those rows flips it.
pub proof fn lemma_flips_count(t: TableState, n: int, server_id: u32, key: u16, phase: Phase)
    requires
        0 <= n <= t.entries.len(),
    ensures
        state_after(t, n, key, phase).muted(server_id) == (t.muted(server_id) == (t.entries.take(
            n,
        ).filter(flipping(server_id, key, phase)).len() % 2 == 0)),
    decreases n,
{
    reveal(Seq::filter);
    if n > 0 {
        lemma_flips_count(t, n - 1, server_id, key, phase);
        assert(t.entries.take(n).drop_last() == t.entries.take(n - 1));
    }
}

/// The table after `n` presses of `key` in a row.
pub open spec fn pressed(t: TableState, key: u16, n: nat) -> TableState
    decreases n,
{
    if n == 0 {
        t
    } else {
        pressed(t, key, (n - 1) as nat).on_event(key, Phase::Press)
    }
}

/// Whether the row at `i` is the only one through which a press of its key
/// flips the toggle state of its endpoint.
pub open spec fn flips_alone(t: TableState, i: int) -> bool {
    forall|j: int|
        0 <= j < t.entries.len() && j != i ==> !(flips(
            #[trigger] t.entries[j],
            t.entries[i].key,
            Phase::Press,
        ) && t.entries[j].server_id == t.entries[i].server_id)
}

/// Where a toggle row flips its endpoint alone, a press of its key flips the
/// endpoint's toggle state once, when the row's turn comes.
pub proof fn lemma_single_flip(t: TableState, i: int, n: int)
    requires
        0 <= i < t.entries.len(),
        0 <= n <= t.entries.len(),
        t.entries[i].mode == KeyType::Toggle,
        flips_alone(t, i),
    ensures
        state_after(t, n, t.entries[i].key, Phase::Press).muted(t.entries[i].server_id) == if n
            <= i {
            t.muted(t.entries[i].server_id)
        } else {
            !t.muted(t.entries[i].server_id)
        },
    decreases n,
{
    if n > 0 {
        lemma_single_flip(t, i, n - 1);
    }
}

/// A toggle binding alternates. Start from the toggle state "muted", the
/// state of a fresh binding, and press the key again and again: the press that
/// follows `n` earlier ones sends "mute" if `n` is odd and "unmute" if `n` is
/// even, so the first press unmutes. This holds of a row that flips its
/// endpoint alone; a second toggle row with the same key and the same endpoint
/// would flip the state a second time within the same press.
pub proof fn law_toggle_alternates(t: TableState, i: int, n: nat, release_delay: u64)
    requires
        t.wf(),
        0 <= i < t.entries.len(),
        t.entries[i].mode == KeyType::Toggle,
        flips_alone(t, i),
        t.muted(t.entries[i].server_id),
    ensures
        ({
            let e = t.entries[i];
            let before = pressed(t, e.key, n);
            &&& before.wf()
            &&& before.entries == t.entries
            &&& before.muted(e.server_id) == (n % 2 == 0)
            &&& mutes_for(before.plan(e.key, Phase::Press, release_delay), e.handle) == seq![
                n % 2 == 1,
            ]
            &&& before.on_event(e.key, Phase::Press).muted(e.server_id) == (n % 2 == 1)
        }),
    decreases n,
{
    let e = t.entries[i];
    let len = t.entries.len() as int;
    if n > 0 {
        law_toggle_alternates(t, i, (n - 1) as nat, release_delay);
        let earlier = pressed(t, e.key, (n - 1) as nat);
        lemma_event_keeps_rows(earlier, len, e.key, Phase::Press);
        lemma_event_keeps_wf(earlier, len, e.key, Phase::Press);
    }
    let before = pressed(t, e.key, n);
    lemma_single_flip(before, i, i);
    lemma_single_flip(before, i, len);
    lemma_plan_sends(before, i, e.key, Phase::Press, release_delay);
    lemma_mutes_of_entry(
        e,
        state_after(before, i, e.key, Phase::Press).muted(e.server_id),
        e.key,
        Phase::Press,
        release_delay,
        e.handle,
    );
}

/// What an action sends to the endpoint `server_id`: the mute value of a
/// request addressed to the handle of a row that binds the endpoint, and
/// nothing for any other action.
pub open spec fn mute_sent_to_endpoint(t: TableState, server_id: u32) -> spec_fn(Action) -> Option<
    bool,
> {
    |a: Action|
        match a {
            Action::SetMute { handle, mute } => if exists|i: int|
                0 <= i < t.entries.len() && (#[trigger] t.entries[i]).handle == handle
                    && t.entries[i].server_id == server_id {
                Some(mute)
            } else {
                None
            },
            _ => None,
        }
}

/// The mute values that a plan sends to the endpoint `server_id`, through
/// whichever of its handles, in order.
pub open spec fn endpoint_mutes(plan: Seq<Action>, t: TableState, server_id: u32) -> Seq<bool> {
    plan.filter_map(mute_sent_to_endpoint(t, server_id))
}

/// Whether no hold row of `key` binds the endpoint `server_id`.
pub open spec fn no_hold_row(t: TableState, server_id: u32, key: u16) -> bool {
    forall|i: int|
        0 <= i < t.entries.len() ==> !((#[trigger] t.entries[i]).server_id == server_id
            && t.entries[i].key == key && t.entries[i].mode == KeyType::Hold)
}

/// What the first `n` rows send to an endpoint that no hold row of the key
/// binds: nothing as long as its toggle state has not been flipped, and
/// otherwise, as the last value, the toggle state that it is in now.
pub proof fn lemma_requests_follow_flips(
    t: TableState,
    n: int,
    server_id: u32,
    key: u16,
    phase: Phase,
    release_delay: u64,
)
    requires
        t.wf(),
        0 <= n <= t.entries.len(),
        no_hold_row(t, server_id, key),
    ensures
        ({
            let sent = endpoint_mutes(
                requests_after(t, n, key, phase, release_delay),
                t,
                server_id,
            );
            let now = state_after(t, n, key, phase).muted(server_id);
            if sent.len() == 0 {
                now == t.muted(server_id)
            } else {
                now == sent.last()
            }
        }),
    decreases n,
{
    if n > 0 {
        let e = t.entries[n - 1];
        let muted = state_after(t, n - 1, key, phase).muted(e.server_id);
        let acts = entry_actions(e, muted, key, phase, release_delay);
        let f = mute_sent_to_endpoint(t, server_id);
        lemma_requests_follow_flips(t, n - 1, server_id, key, phase, release_delay);
        lemma_filter_map_add(requests_after(t, n - 1, key, phase, release_delay), acts, f);
        if acts.len() == 1 {
            Seq::lemma_filter_map_singleton(acts[0], f);
            if e.server_id != server_id {
                assert forall|i: int| 0 <= i < t.entries.len() && (#[trigger] t.entries[i]).handle
                    == e.handle implies t.entries[i].server_id != server_id by {
                    assert(i == n - 1);
                }
            }
        } else if acts.len() == 2 {
            assert(e.server_id != server_id);
            assert(acts == seq![acts[0]] + seq![acts[1]]);
            lemma_filter_map_add(seq![acts[0]], seq![acts[1]], f);
            Seq::lemma_filter_map_singleton(acts[0], f);
            Seq::lemma_filter_map_singleton(acts[1], f);
            assert forall|i: int| 0 <= i < t.entries.len() && (#[trigger] t.entries[i]).handle
                == e.handle implies t.entries[i].server_id != server_id by {
                assert(i == n - 1);
            }
        }
    }
}

/// The remembered toggle state does not drift from the endpoint. Take an
/// endpoint that no hold row of the key binds. If a key event sends the
/// endpoint nothing, its toggle state stays; if it sends something, the last
/// value sent is the new toggle state. So where the endpoint's mute state and
/// its toggle state agreed before the plan was performed, they agree after.
pub proof fn law_toggle_state_follows_the_requests(
    t: TableState,
    server_id: u32,
    key: u16,
    phase: Phase,
    release_delay: u64,
)
    requires
        t.wf(),
        no_hold_row(t, server_id, key),
    ensures
        ({
            let sent = endpoint_mutes(t.plan(key, phase, release_delay), t, server_id);
            let now = t.on_event(key, phase).muted(server_id);
            if sent.len() == 0 {
                now == t.muted(server_id)
            } else {
                now == sent.last()
            }
        }),
{
    let n = t.entries.len() as int;
    let requests = requests_after(t, n, key, phase, release_delay);
    let f = mute_sent_to_endpoint(t, server_id);
    lemma_requests_follow_flips(t, n, server_id, key, phase, release_delay);
    if requests.len() > 0 {
        lemma_filter_map_add(requests, seq![Action::Barrier], f);
        Seq::lemma_filter_map_singleton(Action::Barrier, f);
        assert(requests.push(Action::Barrier) == requests + seq![Action::Barrier]);
    }
}

} // verus!
