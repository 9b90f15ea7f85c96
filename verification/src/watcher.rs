//! The endpoint directory watcher: from the server's notifications to rows of
//! the binding table.
//!
//! The watcher follows the directory for as long as its connection lives: an
//! endpoint is bound when it appears, whenever that is, and forgotten when it
//! goes. Every endpoint that reports a configured name is bound, once for
//! every binding that names it.

use crate::binding::{Action, Binding, Global};
use crate::dispatch::with_barrier;
use crate::table::{BindingTable, TableState};
use vstd::prelude::*;

verus! {

/// Whether the binding `b` is about the announced object: the object is an
/// audio endpoint and reports exactly the binding's name.
pub open spec fn claims(b: Binding, global: Global) -> bool {
    &&& global.is_node
    &&& global.name matches Some(name)
    &&& name@ == b.endpoint_name@
}

/// The table once the first `n` bindings have had their turn. A binding gets
/// a row if it claims the object and the table has a handle left.
pub open spec fn bound_after(
    t: TableState,
    bindings: Seq<Binding>,
    global: Global,
    n: int,
) -> TableState
    decreases n,
{
    if n <= 0 {
        t
    } else {
        let before = bound_after(t, bindings, global, n - 1);
        let b = bindings[n - 1];
        if claims(b, global) && before.has_room() {
            before.insert(global.id, b.key, b.mode)
        } else {
            before
        }
    }
}

/// The requests of the first `n` bindings: each new row is bound and then
/// forced to muted.
pub open spec fn bind_requests_after(
    t: TableState,
    bindings: Seq<Binding>,
    global: Global,
    n: int,
) -> Seq<Action>
    decreases n,
{
    if n <= 0 {
        Seq::empty()
    } else {
        let before = bound_after(t, bindings, global, n - 1);
        let b = bindings[n - 1];
        let earlier = bind_requests_after(t, bindings, global, n - 1);
        if claims(b, global) && before.has_room() {
            let handle = before.next_handle as u64;
            earlier + seq![
                Action::Bind { handle, server_id: global.id },
                Action::SetMute { handle, mute: true },
            ]
        } else {
            earlier
        }
    }
}

/// The plan that drops the given handles, in their order.
pub open spec fn unbind_all(handles: Seq<u64>) -> Seq<Action> {
    handles.map_values(|h: u64| Action::Unbind { handle: h })
}

/// An object that no binding claims leaves the table alone and asks for
/// nothing.
pub proof fn lemma_unclaimed_is_silent(
    t: TableState,
    bindings: Seq<Binding>,
    global: Global,
    n: int,
)
    requires
        0 <= n <= bindings.len(),
        forall|i: int| 0 <= i < n ==> !claims(#[trigger] bindings[i], global),
    ensures
        bound_after(t, bindings, global, n) == t,
        bind_requests_after(t, bindings, global, n) == Seq::<Action>::empty(),
    decreases n,
{
    if n > 0 {
        lemma_unclaimed_is_silent(t, bindings, global, n - 1);
    }
}

/// The watcher of one connection.
#[derive(Clone, Debug)]
pub struct Watcher {
    /// The configured bindings, in the order in which they get their rows.
    pub bindings: Vec<Binding>,
}

impl Watcher {
    /// A watcher for the given bindings.
    pub fn new(bindings: Vec<Binding>) -> (w: Self)
        ensures
            w.bindings == bindings,
    {
        Watcher { bindings }
    }

    /// Handles the announcement of an object. Every binding that claims it gets
    /// a row of its own in `table`, in the order of the bindings. The plan binds
    /// each new handle and forces it to muted, and ends with the barrier. An
    /// object that no binding claims changes nothing and returns the empty plan.
    pub fn on_global(&self, table: &mut BindingTable, global: &Global) -> (plan: Vec<Action>)
        ensures
            final(table)@.wf(),
            final(table)@ == bound_after(
                old(table)@,
                self.bindings@,
                *global,
                self.bindings@.len() as int,
            ),
            plan@ == with_barrier(
                bind_requests_after(
                    old(table)@,
                    self.bindings@,
                    *global,
                    self.bindings@.len() as int,
                ),
            ),
    {
        proof {
            use_type_invariant(&*table);
        }
        let mut plan: Vec<Action> = Vec::new();
        let n = self.bindings.len();
        let name = match &global.name {
            Some(name) => name,
            None => {
                proof {
                    lemma_unclaimed_is_silent(old(table)@, self.bindings@, *global, n as int);
                }
                return plan;
            },
        };
        if !global.is_node {
            proof {
                lemma_unclaimed_is_silent(old(table)@, self.bindings@, *global, n as int);
            }
            return plan;
        }
        let mut i: usize = 0;
        while i < n
            invariant
                i <= n,
                n == self.bindings@.len(),
                global.is_node,
                global.name == Some(*name),
                table@.wf(),
                table@ == bound_after(old(table)@, self.bindings@, *global, i as int),
                plan@ == bind_requests_after(old(table)@, self.bindings@, *global, i as int),
            decreases n - i,
        {
            let b = &self.bindings[i];
            if b.endpoint_name == *name {
                match table.insert(global.id, b.key, b.mode) {
                    Some(handle) => {
                        plan.push(Action::Bind { handle, server_id: global.id });
                        plan.push(Action::SetMute { handle, mute: true });
                    },
                    None => {},
                }
            }
            i += 1;
        }
        if plan.len() > 0 {
            plan.push(Action::Barrier);
        }
        plan
    }

    /// Handles the news that the object `server_id` is gone: its rows leave
    /// `table`, and the plan drops their handles, oldest first.
    pub fn on_global_remove(&self, table: &mut BindingTable, server_id: u32) -> (plan: Vec<Action>)
        ensures
            final(table)@.wf(),
            final(table)@ == old(table)@.remove(server_id),
            plan@ == unbind_all(old(table)@.handles_of(server_id)),
    {
        let handles = table.remove(server_id);
        let mut plan: Vec<Action> = Vec::new();
        let mut i: usize = 0;
        while i < handles.len()
            invariant
                i <= handles.len(),
                plan@ == unbind_all(handles@.take(i as int)),
            decreases handles.len() - i,
        {
            plan.push(Action::Unbind { handle: handles[i] });
            i += 1;
        }
        assert(handles@.take(i as int) == handles@);
        plan
    }
}

} // verus!
