//! The plans of the dispatcher: who gets a request, which one, and where
//! the barrier stands.

use crate::binding::{Action, Entry, KeyType, Phase};
use crate::dispatch::{
    entry_actions, lemma_event_keeps_rows, lemma_event_keeps_wf, requests_after, state_after,
};
use crate::table::{handle_of, on_key, TableState};
use vstd::prelude::*;

verus! {

/// What an action sends to `handle`: the mute value of a request addressed
/// to it, and nothing for any other action.
pub open spec fn mute_sent_to(handle: u64) -> spec_fn(Action) -> Option<bool> {
    |a: Action|
        match a {
            Action::SetMute { handle: h, mute } => if h == handle {
                Some(mute)
            } else {
                None
            },
            _ => None,
        }
}

/// The mute values that a plan sends to `handle`, in order.
pub open spec fn mutes_for(plan: Seq<Action>, handle: u64) -> Seq<bool> {
    plan.filter_map(mute_sent_to(handle))
}

/// The mute state of the endpoint behind `handle` once a plan has been
/// performed, where `before` was its state: a request sets the state to the
/// value that it carries, so the last request decides.
pub open spec fn muted_after(plan: Seq<Action>, handle: u64, before: bool) -> bool {
    let sent = mutes_for(plan, handle);
    if sent.len() == 0 {
        before
    } else {
        sent.last()
    }
}

/// The handle that a request to set mute is addressed to, and nothing for any
/// other action.
pub open spec fn request_handle() -> spec_fn(Action) -> Option<u64> {
    |a: Action|
        match a {
            Action::SetMute { handle, mute } => Some(handle),
            _ => None,
        }
}

/// The rows that a key event asks something of: on a press every row of the
/// key, on a release its hold rows.
pub open spec fn reached(key: u16, phase: Phase) -> spec_fn(Entry) -> bool {
    |e: Entry| e.key == key && (phase == Phase::Press || e.mode == KeyType::Hold)
}

/// Whether the action at `k` is in order among requests: it is a request to
/// set mute, or it is a sleep and the very next action is a request to mute.
pub open spec fn in_order(requests: Seq<Action>, k: int) -> bool {
    match requests[k] {
        Action::SetMute { handle, mute } => true,
        Action::Sleep { millis } => {
            &&& k + 1 < requests.len()
            &&& requests[k + 1] matches Action::SetMute { handle, mute }
            &&& mute
        },
        _ => false,
    }
}

/// Whether a plan is a batch of requests closed by its barrier: the barrier
/// is its last action and stands nowhere else, and before it stands at least
/// one request, and nothing but requests and the sleeps that go before them.
pub open spec fn is_batch(plan: Seq<Action>) -> bool {
    &&& plan.len() >= 2
    &&& plan.last() == Action::Barrier
    &&& forall|k: int| 0 <= k < plan.len() - 1 ==> #[trigger] in_order(plan.drop_last(), k)
}

/// Mapping and filtering two sequences one after the other is mapping and
/// filtering them as one.
pub proof fn lemma_filter_map_add<A, B>(a: Seq<A>, b: Seq<A>, f: spec_fn(A) -> Option<B>)
    ensures
        (a + b).filter_map(f) == a.filter_map(f) + b.filter_map(f),
    decreases b.len(),
{
    if b.len() > 0 {
        assert((a + b).drop_last() == a + b.drop_last());
        lemma_filter_map_add(a, b.drop_last(), f);
    }
}

/// What the requests of one row send to a handle: to the row's own handle what
/// the mode asks for, to any other handle nothing.
pub proof fn lemma_mutes_of_entry(
    e: Entry,
    muted: bool,
    key: u16,
    phase: Phase,
    release_delay: u64,
    handle: u64,
)
    ensures
        mutes_for(entry_actions(e, muted, key, phase, release_delay), handle) == if e.handle
            != handle || e.key != key {
            Seq::<bool>::empty()
        } else {
            match (e.mode, phase) {
                (KeyType::Hold, Phase::Press) => seq![false],
                (KeyType::Hold, Phase::Release) => seq![true],
                (KeyType::Toggle, Phase::Press) => seq![!muted],
                (KeyType::Toggle, Phase::Release) => Seq::<bool>::empty(),
            }
        },
{
    let acts = entry_actions(e, muted, key, phase, release_delay);
    let f = mute_sent_to(handle);
    if acts.len() == 1 {
        Seq::lemma_filter_map_singleton(acts[0], f);
    } else if acts.len() == 2 {
        assert(acts == seq![acts[0]] + seq![acts[1]]);
        lemma_filter_map_add(seq![acts[0]], seq![acts[1]], f);
        Seq::lemma_filter_map_singleton(acts[0], f);
        Seq::lemma_filter_map_singleton(acts[1], f);
    }
}

/// What the requests of the first `n` rows send to the handle of the row at
/// `i`: what that row asks for when its turn has come, and nothing before.
pub proof fn lemma_mutes_of_row(
    t: TableState,
    n: int,
    i: int,
    key: u16,
    phase: Phase,
    release_delay: u64,
)
    requires
        t.wf(),
        0 <= n <= t.entries.len(),
        0 <= i < t.entries.len(),
    ensures
        mutes_for(requests_after(t, n, key, phase, release_delay), t.entries[i].handle) == if i
            < n {
            mutes_for(
                entry_actions(
                    t.entries[i],
                    state_after(t, i, key, phase).muted(t.entries[i].server_id),
                    key,
                    phase,
                    release_delay,
                ),
                t.entries[i].handle,
            )
        } else {
            Seq::<bool>::empty()
        },
    decreases n,
{
    let handle = t.entries[i].handle;
    if n > 0 {
        let e = t.entries[n - 1];
        let muted = state_after(t, n - 1, key, phase).muted(e.server_id);
        lemma_mutes_of_row(t, n - 1, i, key, phase, release_delay);
        lemma_filter_map_add(
            requests_after(t, n - 1, key, phase, release_delay),
            entry_actions(e, muted, key, phase, release_delay),
            mute_sent_to(handle),
        );
        lemma_mutes_of_entry(e, muted, key, phase, release_delay, handle);
    }
}

/// What the plan of a key event sends to the handle of the row at `i` is what
/// that row asks for when its turn has come. The plan is not empty where that
/// is anything.
pub proof fn lemma_plan_sends(t: TableState, i: int, key: u16, phase: Phase, release_delay: u64)
    requires
        t.wf(),
        0 <= i < t.entries.len(),
    ensures
        mutes_for(t.plan(key, phase, release_delay), t.entries[i].handle) == mutes_for(
            entry_actions(
                t.entries[i],
                state_after(t, i, key, phase).muted(t.entries[i].server_id),
                key,
                phase,
                release_delay,
            ),
            t.entries[i].handle,
        ),
{
    let n = t.entries.len() as int;
    let requests = requests_after(t, n, key, phase, release_delay);
    lemma_mutes_of_row(t, n, i, key, phase, release_delay);
    if requests.len() > 0 {
        lemma_filter_map_add(requests, seq![Action::Barrier], mute_sent_to(t.entries[i].handle));
        Seq::lemma_filter_map_singleton(Action::Barrier, mute_sent_to(t.entries[i].handle));
        assert(requests.push(Action::Barrier) == requests + seq![Action::Barrier]);
    }
}

/// Every request of a key event is addressed to the handle of a live row,
/// every sleep lasts as long as the release delay, and nothing else is among
/// the requests.
pub proof fn lemma_requests_name_live_rows(
    t: TableState,
    n: int,
    key: u16,
    phase: Phase,
    release_delay: u64,
)
    requires
        0 <= n <= t.entries.len(),
    ensures
        forall|k: int|
            0 <= k < requests_after(t, n, key, phase, release_delay).len() ==> match (
            #[trigger] requests_after(t, n, key, phase, release_delay)[k]) {
                Action::SetMute { handle, mute } => t.is_live(handle),
                Action::Sleep { millis } => millis == release_delay,
                _ => false,
            },
    decreases n,
{
    if n > 0 {
        lemma_requests_name_live_rows(t, n - 1, key, phase, release_delay);
    }
}

/// The requests of a key event are in order: a sleep is always followed by
/// the request to mute that it delays.
pub proof fn lemma_requests_in_order(
    t: TableState,
    n: int,
    key: u16,
    phase: Phase,
    release_delay: u64,
)
    requires
        0 <= n <= t.entries.len(),
    ensures
        forall|k: int|
            0 <= k < requests_after(t, n, key, phase, release_delay).len() ==> #[trigger] in_order(
                requests_after(t, n, key, phase, release_delay),
                k,
            ),
    decreases n,
{
    if n > 0 {
        let earlier = requests_after(t, n - 1, key, phase, release_delay);
        let all = requests_after(t, n, key, phase, release_delay);
        lemma_requests_in_order(t, n - 1, key, phase, release_delay);
        assert forall|k: int| 0 <= k < all.len() implies #[trigger] in_order(all, k) by {
            if k < earlier.len() {
                assert(in_order(earlier, k));
            }
        }
    }
}

/// Every plan of the dispatcher is either empty or a batch of requests
/// closed by its barrier: the barrier is never sent before the requests that
/// it is to flush, and never without any.
pub proof fn law_plan_is_empty_or_batch(t: TableState, key: u16, phase: Phase, release_delay: u64)
    ensures
        t.plan(key, phase, release_delay).len() == 0 || is_batch(
            t.plan(key, phase, release_delay),
        ),
{
    let requests = requests_after(t, t.entries.len() as int, key, phase, release_delay);
    lemma_requests_in_order(t, t.entries.len() as int, key, phase, release_delay);
    if requests.len() > 0 {
        assert(requests.push(Action::Barrier).drop_last() == requests);
    }
}

/// Filtering by a condition that is at least as strict as one already applied
/// is filtering by the stricter one alone.
pub proof fn lemma_filter_twice(
    entries: Seq<Entry>,
    wide: spec_fn(Entry) -> bool,
    narrow: spec_fn(Entry) -> bool,
)
    requires
        forall|e: Entry| #[trigger] narrow(e) ==> wide(e),
    ensures
        entries.filter(wide).filter(narrow) == entries.filter(narrow),
    decreases entries.len(),
{
    reveal(Seq::filter);
    if entries.len() > 0 {
        lemma_filter_twice(entries.drop_last(), wide, narrow);
        if wide(entries.last()) {
            entries.drop_last().filter(wide).lemma_filter_push(entries.last(), narrow);
        }
    }
}

/// Two conditions that agree on every row keep the same rows.
pub proof fn lemma_filter_same(
    entries: Seq<Entry>,
    p: spec_fn(Entry) -> bool,
    q: spec_fn(Entry) -> bool,
)
    requires
        forall|e: Entry| #[trigger] p(e) == q(e),
    ensures
        entries.filter(p) == entries.filter(q),
    decreases entries.len(),
{
    reveal(Seq::filter);
    if entries.len() > 0 {
        lemma_filter_same(entries.drop_last(), p, q);
    }
}

/// The requests of the first `n` rows go to the rows among them that the key
/// event reaches, one request each, in the order of the rows.
pub proof fn lemma_requests_reach(t: TableState, n: int, key: u16, phase: Phase, release_delay: u64)
    requires
        0 <= n <= t.entries.len(),
    ensures
        requests_after(t, n, key, phase, release_delay).filter_map(request_handle())
            == t.entries.take(n).filter(reached(key, phase)).map_values(handle_of()),
    decreases n,
{
    reveal(Seq::filter);
    let f = request_handle();
    if n > 0 {
        let e = t.entries[n - 1];
        let muted = state_after(t, n - 1, key, phase).muted(e.server_id);
        let earlier = requests_after(t, n - 1, key, phase, release_delay);
        let acts = entry_actions(e, muted, key, phase, release_delay);
        lemma_requests_reach(t, n - 1, key, phase, release_delay);
        lemma_filter_map_add(earlier, acts, f);
        if acts.len() == 1 {
            Seq::lemma_filter_map_singleton(acts[0], f);
        } else if acts.len() == 2 {
            assert(acts == seq![acts[0]] + seq![acts[1]]);
            lemma_filter_map_add(seq![acts[0]], seq![acts[1]], f);
            Seq::lemma_filter_map_singleton(acts[0], f);
            Seq::lemma_filter_map_singleton(acts[1], f);
        }
        assert(t.entries.take(n).drop_last() == t.entries.take(n - 1));
    }
}

/// Who gets a request. A press sends one request to every row that the key
/// controls, a release one to every hold row that it controls, in the order
/// in which a lookup of the key finds them; no other handle gets any.
pub proof fn law_plan_reaches_the_rows_of_the_key(
    t: TableState,
    key: u16,
    phase: Phase,
    release_delay: u64,
)
    ensures
        t.plan(key, phase, release_delay).filter_map(request_handle()) == t.lookup(key).filter(
            reached(key, phase),
        ).map_values(handle_of()),
        phase == Phase::Press ==> t.plan(key, phase, release_delay).filter_map(request_handle())
            == t.lookup(key).map_values(handle_of()),
{
    let n = t.entries.len() as int;
    let requests = requests_after(t, n, key, phase, release_delay);
    let f = request_handle();
    lemma_requests_reach(t, n, key, phase, release_delay);
    assert(t.entries.take(n) == t.entries);
    if requests.len() > 0 {
        lemma_filter_map_add(requests, seq![Action::Barrier], f);
        Seq::lemma_filter_map_singleton(Action::Barrier, f);
        assert(requests.push(Action::Barrier) == requests + seq![Action::Barrier]);
    }
    lemma_filter_twice(t.entries, on_key(key), reached(key, phase));
    if phase == Phase::Press {
        lemma_filter_same(t.entries, on_key(key), reached(key, phase));
    }
}

/// On the key of a hold binding, a press and the release that follows it send
/// to that binding's handle exactly one request to unmute and then exactly one
/// to mute, each in a batch that its barrier closes. So the endpoint is
/// unmuted while the key is held and muted again afterwards.
pub proof fn law_hold_press_then_release(t: TableState, i: int, release_delay: u64)
    requires
        t.wf(),
        0 <= i < t.entries.len(),
        t.entries[i].mode == KeyType::Hold,
    ensures
        ({
            let e = t.entries[i];
            let pressed = t.plan(e.key, Phase::Press, release_delay);
            let released = t.on_event(e.key, Phase::Press).plan(
                e.key,
                Phase::Release,
                release_delay,
            );
            &&& mutes_for(pressed, e.handle) == seq![false]
            &&& mutes_for(released, e.handle) == seq![true]
            &&& mutes_for(pressed + released, e.handle) == seq![false, true]
            &&& is_batch(pressed)
            &&& is_batch(released)
            &&& !muted_after(pressed, e.handle, true)
            &&& muted_after(released, e.handle, false)
        }),
{
    let e = t.entries[i];
    let n = t.entries.len() as int;
    let held = t.on_event(e.key, Phase::Press);
    lemma_event_keeps_rows(t, n, e.key, Phase::Press);
    lemma_event_keeps_wf(t, n, e.key, Phase::Press);
    lemma_plan_sends(t, i, e.key, Phase::Press, release_delay);
    lemma_plan_sends(held, i, e.key, Phase::Release, release_delay);
    lemma_mutes_of_entry(
        e,
        state_after(t, i, e.key, Phase::Press).muted(e.server_id),
        e.key,
        Phase::Press,
        release_delay,
        e.handle,
    );
    lemma_mutes_of_entry(
        e,
        state_after(held, i, e.key, Phase::Release).muted(e.server_id),
        e.key,
        Phase::Release,
        release_delay,
        e.handle,
    );
    law_plan_is_empty_or_batch(t, e.key, Phase::Press, release_delay);
    law_plan_is_empty_or_batch(held, e.key, Phase::Release, release_delay);
    lemma_filter_map_add(
        t.plan(e.key, Phase::Press, release_delay),
        held.plan(e.key, Phase::Release, release_delay),
        mute_sent_to(e.handle),
    );
}

/// Rows of other keys ask for nothing and flip nothing.
pub proof fn lemma_other_keys_are_silent(
    t: TableState,
    n: int,
    key: u16,
    phase: Phase,
    release_delay: u64,
)
    requires
        0 <= n <= t.entries.len(),
        forall|k: int| 0 <= k < n ==> (#[trigger] t.entries[k]).key != key,
    ensures
        requests_after(t, n, key, phase, release_delay) == Seq::<Action>::empty(),
        state_after(t, n, key, phase) == t,
    decreases n,
{
    if n > 0 {
        lemma_other_keys_are_silent(t, n - 1, key, phase, release_delay);
    }
}

/// An event of a key that controls no live row is silent: the plan is empty,
/// barrier included, and the table stays as it is. So a binding whose endpoint
/// never appeared costs nothing and fails nothing.
pub proof fn law_unbound_key_is_silent(t: TableState, key: u16, phase: Phase, release_delay: u64)
    requires
        forall|k: int| 0 <= k < t.entries.len() ==> (#[trigger] t.entries[k]).key != key,
    ensures
        t.plan(key, phase, release_delay) == Seq::<Action>::empty(),
        t.on_event(key, phase) == t,
{
    lemma_other_keys_are_silent(t, t.entries.len() as int, key, phase, release_delay);
}

/// A request to set mute is absolute: it leaves the endpoint in the state
/// that it names, whatever the state was, and sending it a second time changes
/// nothing.
pub proof fn law_set_mute_is_idempotent(handle: u64, mute: bool, before: bool)
    ensures
        muted_after(seq![Action::SetMute { handle, mute }], handle, before) == mute,
        muted_after(
            seq![Action::SetMute { handle, mute }, Action::SetMute { handle, mute }],
            handle,
            before,
        ) == mute,
{
    let once = seq![Action::SetMute { handle, mute }];
    Seq::lemma_filter_map_singleton(Action::SetMute { handle, mute }, mute_sent_to(handle));
    lemma_filter_map_add(once, once, mute_sent_to(handle));
    assert(once + once == seq![
        Action::SetMute { handle, mute },
        Action::SetMute { handle, mute },
    ]);
}

} // verus!
