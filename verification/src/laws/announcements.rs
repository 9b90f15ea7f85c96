//! The announcements of the server: what the watcher makes of them.

use crate::binding::{Action, Binding, Entry, Global};
use crate::table::{lemma_insert_keeps_wf, TableState};
use crate::watcher::{bind_requests_after, bound_after, claims};
use vstd::prelude::*;

verus! {

/// The bindings that claim the announced object.
pub open spec fn claiming(global: Global) -> spec_fn(Binding) -> bool {
    |b: Binding| claims(b, global)
}

/// The rows that the bindings `claimed` get for the announced object, one
/// each and in their order, under handles counted up from `next_handle`.
pub open spec fn rows_for(next_handle: nat, global: Global, claimed: Seq<Binding>) -> Seq<Entry> {
    Seq::new(
        claimed.len(),
        |k: int|
            Entry {
                handle: (next_handle + k) as u64,
                server_id: global.id,
                key: claimed[k].key,
                mode: claimed[k].mode,
            },
    )
}

/// The requests that go with `count` new rows under handles counted up from
/// `next_handle`: each row's handle is bound and then forced to muted.
pub open spec fn requests_for(next_handle: nat, global: Global, count: nat) -> Seq<Action> {
    Seq::new(
        2 * count,
        |j: int|
            if j % 2 == 0 {
                Action::Bind { handle: (next_handle + j / 2) as u64, server_id: global.id }
            } else {
                Action::SetMute { handle: (next_handle + j / 2) as u64, mute: true }
            },
    )
}

/// What the watcher makes of an announced object, said at once. Every binding
/// that claims the object gets a row of its own, behind the rows that were
/// there, in the order of the bindings and under handles that were never
/// handed out before. Each new handle is bound and then forced to muted. The
/// object's toggle state is "muted" as soon as it has a new row, and no other
/// toggle state changes. An object that no binding claims changes nothing.
/// This holds as long as the handles do not run out.
pub proof fn law_announcement_binds_every_claim(
    t: TableState,
    bindings: Seq<Binding>,
    global: Global,
    n: int,
)
    requires
        t.wf(),
        0 <= n <= bindings.len(),
        t.next_handle + n <= u64::MAX,
    ensures
        ({
            let after = bound_after(t, bindings, global, n);
            let claimed = bindings.take(n).filter(claiming(global));
            &&& after.wf()
            &&& after.entries == t.entries + rows_for(t.next_handle, global, claimed)
            &&& after.next_handle == t.next_handle + claimed.len()
            &&& after.unmuted == if claimed.len() > 0 {
                t.unmuted.remove(global.id)
            } else {
                t.unmuted
            }
            &&& bind_requests_after(t, bindings, global, n) == requests_for(
                t.next_handle,
                global,
                claimed.len(),
            )
        }),
    decreases n,
{
    reveal(Seq::filter);
    if n > 0 {
        law_announcement_binds_every_claim(t, bindings, global, n - 1);
        let before = bound_after(t, bindings, global, n - 1);
        let b = bindings[n - 1];
        assert(bindings.take(n).drop_last() == bindings.take(n - 1));
        if claims(b, global) {
            lemma_insert_keeps_wf(before, global.id, b.key, b.mode);
        }
    }
}

/// What holds of an announcement even when the handles run out: the table
/// stays well formed, the rows that were there stay in front, and whatever is
/// requested is addressed to a handle that was never handed out before.
pub proof fn law_announcement_uses_fresh_handles(
    t: TableState,
    bindings: Seq<Binding>,
    global: Global,
    n: int,
)
    requires
        t.wf(),
        0 <= n <= bindings.len(),
    ensures
        ({
            let after = bound_after(t, bindings, global, n);
            let requests = bind_requests_after(t, bindings, global, n);
            &&& after.wf()
            &&& t.next_handle <= after.next_handle
            &&& t.entries.len() <= after.entries.len()
            &&& after.entries.take(t.entries.len() as int) == t.entries
            &&& forall|k: int|
                0 <= k < requests.len() ==> match #[trigger] requests[k] {
                    Action::Bind { handle, server_id } => t.next_handle <= handle
                        < after.next_handle && server_id == global.id,
                    Action::SetMute { handle, mute } => t.next_handle <= handle < after.next_handle
                        && mute,
                    _ => false,
                }
        }),
    decreases n,
{
    if n > 0 {
        law_announcement_uses_fresh_handles(t, bindings, global, n - 1);
        let before = bound_after(t, bindings, global, n - 1);
        let b = bindings[n - 1];
        if claims(b, global) && before.has_room() {
            lemma_insert_keeps_wf(before, global.id, b.key, b.mode);
        }
    }
}

} // verus!
