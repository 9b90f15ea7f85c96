//! The binding table: which live endpoints each key controls.
//!
//! [`TableState`] is the mathematical table and says what every operation
//! does. [`BindingTable`] is the executable table; its view is a
//! [`TableState`] that is always well formed.

use crate::binding::{Entry, KeyType};
use std::collections::HashSet;
use vstd::prelude::*;

verus! {

broadcast use vstd::std_specs::hash::group_hash_axioms;

/// The table as a mathematical value.
#[verifier::ext_equal]
pub struct TableState {
    /// The live rows, oldest first.
    pub entries: Seq<Entry>,
    /// The server identifiers whose toggle state is "unmuted". Every other
    /// identifier is in the toggle state "muted", the state that a freshly
    /// bound endpoint starts in.
    pub unmuted: Set<u32>,
    /// The token that the next insertion hands out.
    pub next_handle: nat,
}

/// The rows that bind the endpoint `server_id`.
pub open spec fn of_endpoint(server_id: u32) -> spec_fn(Entry) -> bool {
    |e: Entry| e.server_id == server_id
}

/// The rows that bind any other endpoint than `server_id`.
pub open spec fn of_other_endpoint(server_id: u32) -> spec_fn(Entry) -> bool {
    |e: Entry| e.server_id != server_id
}

/// The rows that `key` controls.
pub open spec fn on_key(key: u16) -> spec_fn(Entry) -> bool {
    |e: Entry| e.key == key
}

/// A row's handle.
pub open spec fn handle_of() -> spec_fn(Entry) -> u64 {
    |e: Entry| e.handle
}

/// Whether the handles grow strictly along `entries`.
pub open spec fn ascending(entries: Seq<Entry>) -> bool {
    forall|i: int, j: int|
        0 <= i < j < entries.len() ==> (#[trigger] entries[i]).handle < (
        #[trigger] entries[j]).handle
}

impl TableState {
    /// The table that holds nothing and has handed out no handle yet.
    pub open spec fn empty() -> Self {
        TableState { entries: Seq::empty(), unmuted: Set::empty(), next_handle: 0 }
    }

    /// Whether some live row binds the endpoint `server_id` in toggle mode.
    pub open spec fn has_toggle(self, server_id: u32) -> bool {
        exists|i: int|
            0 <= i < self.entries.len() && (#[trigger] self.entries[i]).server_id == server_id
                && self.entries[i].mode == KeyType::Toggle
    }

    /// Well-formedness: handles grow strictly along the rows and stay below
    /// the next one to hand out, so no two rows share a handle; and only
    /// endpoints that a live toggle row binds can be remembered as unmuted.
    pub open spec fn wf(self) -> bool {
        &&& self.next_handle <= u64::MAX
        &&& forall|i: int|
            0 <= i < self.entries.len() ==> (#[trigger] self.entries[i]).handle < self.next_handle
        &&& ascending(self.entries)
        &&& forall|id: u32| #[trigger] self.unmuted.contains(id) ==> self.has_toggle(id)
    }

    /// Whether one more row can be inserted.
    pub open spec fn has_room(self) -> bool {
        self.next_handle < u64::MAX
    }

    /// The row that inserting `(server_id, key, mode)` appends.
    pub open spec fn next_entry(self, server_id: u32, key: u16, mode: KeyType) -> Entry {
        Entry { handle: self.next_handle as u64, server_id, key, mode }
    }

    /// The table after binding the endpoint `server_id` to `key` in `mode`:
    /// one more row under a fresh handle, and the endpoint's toggle state back
    /// at "muted".
    pub open spec fn insert(self, server_id: u32, key: u16, mode: KeyType) -> Self {
        TableState {
            entries: self.entries.push(self.next_entry(server_id, key, mode)),
            unmuted: self.unmuted.remove(server_id),
            next_handle: self.next_handle + 1,
        }
    }

    /// The table after the endpoint `server_id` has gone: none of its rows is
    /// left, the other rows keep their order, and its toggle state is forgotten.
    pub open spec fn remove(self, server_id: u32) -> Self {
        TableState {
            entries: self.entries.filter(of_other_endpoint(server_id)),
            unmuted: self.unmuted.remove(server_id),
            next_handle: self.next_handle,
        }
    }

    /// The handles of the rows that bind the endpoint `server_id`, oldest first.
    pub open spec fn handles_of(self, server_id: u32) -> Seq<u64> {
        self.entries.filter(of_endpoint(server_id)).map_values(handle_of())
    }

    /// The rows that `key` controls, oldest first.
    pub open spec fn lookup(self, key: u16) -> Seq<Entry> {
        self.entries.filter(on_key(key))
    }

    /// Whether some live row holds `handle`.
    pub open spec fn is_live(self, handle: u64) -> bool {
        exists|i: int| 0 <= i < self.entries.len() && (#[trigger] self.entries[i]).handle == handle
    }

    /// The toggle state of the endpoint `server_id`: `true` is muted.
    pub open spec fn muted(self, server_id: u32) -> bool {
        !self.unmuted.contains(server_id)
    }

    /// The table after the toggle state of the endpoint `server_id` has flipped.
    pub open spec fn flip(self, server_id: u32) -> Self {
        TableState {
            entries: self.entries,
            unmuted: if self.unmuted.contains(server_id) {
                self.unmuted.remove(server_id)
            } else {
                self.unmuted.insert(server_id)
            },
            next_handle: self.next_handle,
        }
    }
}

/// The executable binding table. Its view is well formed at all times;
/// [`BindingTable::new`], [`BindingTable::len`] and every operation that
/// changes the table say so for those who need it.
pub struct BindingTable {
    entries: Vec<Entry>,
    unmuted: HashSet<u32>,
    next_handle: u64,
}

impl View for BindingTable {
    type V = TableState;

    closed spec fn view(&self) -> TableState {
        TableState {
            entries: self.entries@,
            unmuted: self.unmuted@,
            next_handle: self.next_handle as nat,
        }
    }
}

impl BindingTable {
    #[verifier::type_invariant]
    pub(crate) open spec fn inv(self) -> bool {
        self@.wf()
    }

    /// An empty table.
    pub fn new() -> (table: Self)
        ensures
            table@ == TableState::empty(),
            table@.wf(),
    {
        BindingTable { entries: Vec::new(), unmuted: HashSet::new(), next_handle: 0 }
    }

    /// The number of live rows.
    pub fn len(&self) -> (n: usize)
        ensures
            n == self@.entries.len(),
            self@.wf(),
    {
        proof {
            use_type_invariant(self);
        }
        self.entries.len()
    }

    /// Binds the endpoint `server_id` to `key` in `mode` and returns the handle
    /// of the new row. The only way to fail is to have used up every handle:
    /// then the table stays as it is.
    pub fn insert(&mut self, server_id: u32, key: u16, mode: KeyType) -> (handle: Option<u64>)
        ensures
            final(self)@.wf(),
            match handle {
                Some(h) => old(self)@.has_room() && h == old(self)@.next_handle && final(self)@
                    == old(self)@.insert(server_id, key, mode),
                None => !old(self)@.has_room() && final(self)@ == old(self)@,
            },
    {
        proof {
            use_type_invariant(&*self);
        }
        if self.next_handle == u64::MAX {
            return None;
        }
        let mut taken = BindingTable::new();
        std::mem::swap(self, &mut taken);
        let BindingTable { mut entries, mut unmuted, next_handle } = taken;
        let entry = Entry { handle: next_handle, server_id, key, mode };
        entries.push(entry);
        unmuted.remove(&server_id);
        proof {
            lemma_insert_keeps_wf(old(self)@, server_id, key, mode);
        }
        *self = BindingTable { entries, unmuted, next_handle: next_handle + 1 };
        Some(next_handle)
    }

    /// The row at `index`, counted from the oldest.
    pub fn entry(&self, index: usize) -> (e: Option<Entry>)
        ensures
            e == if index < self@.entries.len() {
                Some(self@.entries[index as int])
            } else {
                None
            },
    {
        if index < self.entries.len() {
            Some(self.entries[index])
        } else {
            None
        }
    }

    /// Forgets the endpoint `server_id` and returns the handles that its rows
    /// held, oldest first: they are dead from now on.
    pub fn remove(&mut self, server_id: u32) -> (handles: Vec<u64>)
        ensures
            final(self)@.wf(),
            final(self)@ == old(self)@.remove(server_id),
            handles@ == old(self)@.handles_of(server_id),
    {
        proof {
            use_type_invariant(&*self);
        }
        let mut taken = BindingTable::new();
        std::mem::swap(self, &mut taken);
        let BindingTable { entries, mut unmuted, next_handle } = taken;
        let mut kept: Vec<Entry> = Vec::new();
        let mut handles: Vec<u64> = Vec::new();
        let mut i: usize = 0;
        while i < entries.len()
            invariant
                i <= entries.len(),
                kept@ == entries@.take(i as int).filter(of_other_endpoint(server_id)),
                handles@ == entries@.take(i as int).filter(of_endpoint(server_id)).map_values(
                    handle_of(),
                ),
            decreases entries.len() - i,
        {
            let e = entries[i];
            proof {
                let done = entries@.take(i as int);
                assert(entries@.take(i + 1) == done.push(e));
                done.lemma_filter_push(e, of_other_endpoint(server_id));
                done.lemma_filter_push(e, of_endpoint(server_id));
            }
            if e.server_id == server_id {
                handles.push(e.handle);
            } else {
                kept.push(e);
            }
            i += 1;
        }
        unmuted.remove(&server_id);
        proof {
            assert(entries@.take(i as int) == entries@);
            lemma_remove_keeps_wf(old(self)@, server_id);
        }
        *self = BindingTable { entries: kept, unmuted, next_handle };
        handles
    }

    /// The rows that `key` controls, oldest first.
    pub fn lookup(&self, key: u16) -> (found: Vec<Entry>)
        ensures
            found@ == self@.lookup(key),
    {
        let mut found: Vec<Entry> = Vec::new();
        let mut i: usize = 0;
        while i < self.entries.len()
            invariant
                i <= self.entries.len(),
                found@ == self.entries@.take(i as int).filter(on_key(key)),
            decreases self.entries.len() - i,
        {
            let e = self.entries[i];
            proof {
                let done = self.entries@.take(i as int);
                assert(self.entries@.take(i + 1) == done.push(e));
                done.lemma_filter_push(e, on_key(key));
            }
            if e.key == key {
                found.push(e);
            }
            i += 1;
        }
        proof {
            assert(self.entries@.take(i as int) == self.entries@);
        }
        found
    }

    /// Whether some live row holds `handle`. A worker asks this right before
    /// it sends to a handle that it looked up earlier.
    pub fn is_live(&self, handle: u64) -> (live: bool)
        ensures
            live == self@.is_live(handle),
    {
        let mut i: usize = 0;
        while i < self.entries.len()
            invariant
                i <= self.entries.len(),
                forall|k: int| 0 <= k < i ==> (#[trigger] self.entries@[k]).handle != handle,
            decreases self.entries.len() - i,
        {
            if self.entries[i].handle == handle {
                return true;
            }
            i += 1;
        }
        false
    }

    /// The toggle state of the endpoint `server_id`: `true` is muted.
    pub fn is_muted(&self, server_id: u32) -> (muted: bool)
        ensures
            muted == self@.muted(server_id),
    {
        !self.unmuted.contains(&server_id)
    }

    /// Flips the toggle state of the endpoint that the row at `index` binds and
    /// returns the new state, `true` for muted. Where there is no such row, or
    /// the row is not in toggle mode, nothing changes.
    pub fn toggle_at(&mut self, index: usize) -> (muted: Option<bool>)
        ensures
            final(self)@.wf(),
            match muted {
                Some(m) => {
                    &&& index < old(self)@.entries.len()
                    &&& old(self)@.entries[index as int].mode == KeyType::Toggle
                    &&& final(self)@ == old(self)@.flip(old(self)@.entries[index as int].server_id)
                    &&& m == !old(self)@.muted(old(self)@.entries[index as int].server_id)
                },
                None => {
                    &&& !(index < old(self)@.entries.len() && old(self)@.entries[index as int].mode
                        == KeyType::Toggle)
                    &&& final(self)@ == old(self)@
                },
            },
    {
        proof {
            use_type_invariant(&*self);
        }
        if index >= self.entries.len() {
            return None;
        }
        let e = self.entries[index];
        match e.mode {
            KeyType::Hold => None,
            KeyType::Toggle => {
                let mut taken = BindingTable::new();
                std::mem::swap(self, &mut taken);
                let BindingTable { entries, mut unmuted, next_handle } = taken;
                let was_unmuted = unmuted.contains(&e.server_id);
                if was_unmuted {
                    unmuted.remove(&e.server_id);
                } else {
                    unmuted.insert(e.server_id);
                }
                proof {
                    lemma_flip_keeps_wf(old(self)@, index as int);
                }
                *self = BindingTable { entries, unmuted, next_handle };
                Some(was_unmuted)
            },
        }
    }
}

/// Every row that a filter keeps is a row of the sequence that it was taken
/// from, and a filter keeps the handles growing.
pub proof fn lemma_filter_keeps_ascending(entries: Seq<Entry>, keep: spec_fn(Entry) -> bool)
    requires
        ascending(entries),
    ensures
        ascending(entries.filter(keep)),
        forall|i: int|
            0 <= i < entries.filter(keep).len() ==> entries.contains(
                #[trigger] entries.filter(keep)[i],
            ),
    decreases entries.len(),
{
    reveal(Seq::filter);
    if entries.len() > 0 {
        let front = entries.drop_last();
        let kept = entries.filter(keep);
        lemma_filter_keeps_ascending(front, keep);
        assert forall|i: int| 0 <= i < kept.len() implies entries.contains(#[trigger] kept[i]) by {
            if i < front.filter(keep).len() {
                let k = choose|k: int| 0 <= k < front.len() && front[k] == front.filter(keep)[i];
                assert(entries[k] == kept[i]);
            } else {
                assert(entries[entries.len() - 1] == kept[i]);
            }
        }
        assert forall|i: int, j: int| 0 <= i < j < kept.len() implies (#[trigger] kept[i]).handle
            < (#[trigger] kept[j]).handle by {
            if j == front.filter(keep).len() {
                let k = choose|k: int| 0 <= k < front.len() && front[k] == front.filter(keep)[i];
                assert(entries[k].handle < entries[entries.len() - 1].handle);
            }
        }
    }
}

/// Binding an endpoint keeps a table well formed, as long as there is a
/// handle left to hand out.
pub proof fn lemma_insert_keeps_wf(t: TableState, server_id: u32, key: u16, mode: KeyType)
    requires
        t.wf(),
        t.has_room(),
    ensures
        t.insert(server_id, key, mode).wf(),
{
    let after = t.insert(server_id, key, mode);
    assert forall|id: u32| #[trigger] after.unmuted.contains(id) implies after.has_toggle(id) by {
        let i = choose|i: int|
            0 <= i < t.entries.len() && (#[trigger] t.entries[i]).server_id == id
                && t.entries[i].mode == KeyType::Toggle;
        assert(after.entries[i] == t.entries[i]);
    }
}

/// Forgetting an endpoint keeps a table well formed.
pub proof fn lemma_remove_keeps_wf(t: TableState, server_id: u32)
    requires
        t.wf(),
    ensures
        t.remove(server_id).wf(),
{
    let after = t.remove(server_id);
    lemma_filter_keeps_ascending(t.entries, of_other_endpoint(server_id));
    assert forall|i: int| 0 <= i < after.entries.len() implies (#[trigger] after.entries[i]).handle
        < after.next_handle by {
        let k = choose|k: int| 0 <= k < t.entries.len() && t.entries[k] == after.entries[i];
        assert(t.entries[k].handle < t.next_handle);
    }
    assert forall|id: u32| #[trigger] after.unmuted.contains(id) implies after.has_toggle(id) by {
        let i = choose|i: int|
            0 <= i < t.entries.len() && (#[trigger] t.entries[i]).server_id == id
                && t.entries[i].mode == KeyType::Toggle;
        t.entries.lemma_filter_contains(of_other_endpoint(server_id), i);
        let k = choose|k: int| 0 <= k < after.entries.len() && after.entries[k] == t.entries[i];
        assert(after.entries[k].server_id == id);
    }
}

/// Flipping the toggle state of an endpoint that a toggle row binds keeps a
/// table well formed.
pub proof fn lemma_flip_keeps_wf(t: TableState, index: int)
    requires
        t.wf(),
        0 <= index < t.entries.len(),
        t.entries[index].mode == KeyType::Toggle,
    ensures
        t.flip(t.entries[index].server_id).wf(),
{
    let after = t.flip(t.entries[index].server_id);
    assert forall|id: u32| #[trigger] after.unmuted.contains(id) implies after.has_toggle(id) by {
        if id == t.entries[index].server_id {
            assert(after.entries[index].server_id == id);
        }
    }
}

} // verus!
