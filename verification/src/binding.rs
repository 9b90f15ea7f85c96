//! The vocabulary shared by the binding table, the watcher and the dispatcher.

use vstd::prelude::*;

verus! {

/// How a key drives the mute state of the endpoints bound to it.
#[derive(Clone, Copy, Debug, PartialEq, Eq, Structural)]
pub enum KeyType {
    /// The endpoint is unmuted exactly while the key is held down.
    Hold,
    /// Each press flips a remembered mute state.
    Toggle,
}

/// The two phases of a key that the dispatcher reacts to.
#[derive(Clone, Copy, Debug, PartialEq, Eq, Structural)]
pub enum Phase {
    Press,
    Release,
}

/// A configured rule: the endpoints named `endpoint_name` are controlled by
/// `key` in `mode`. Bindings are made once at startup and never change.
#[derive(Clone, Debug, PartialEq, Eq)]
pub struct Binding {
    /// Compared with the name that the server reports, character by character.
    pub endpoint_name: String,
    /// Code of the physical key.
    pub key: u16,
    pub mode: KeyType,
}

/// What the server's directory says of one object when it announces it.
#[derive(Clone, Debug, PartialEq, Eq)]
pub struct Global {
    /// Identifier that the server gave the object.
    pub id: u32,
    /// Whether the object is an audio endpoint.
    pub is_node: bool,
    /// The endpoint's name, where the server reports one.
    pub name: Option<String>,
}

/// One live row of the binding table: a bound endpoint together with the key
/// and the mode that control it.
#[derive(Clone, Copy, Debug, PartialEq, Eq, Structural)]
pub struct Entry {
    /// Token of the client-side handle. The table hands each token out once.
    pub handle: u64,
    /// Identifier that the server gave the endpoint. The server may reuse it
    /// once the endpoint is gone.
    pub server_id: u32,
    /// Code of the physical key.
    pub key: u16,
    pub mode: KeyType,
}

/// One thing for a worker to do on its own connection. A worker performs the
/// actions of a plan in order.
#[derive(Clone, Copy, Debug, PartialEq, Eq, Structural)]
pub enum Action {
    /// Bind a client-side handle to the server object `server_id` and keep it
    /// under `handle`.
    Bind { handle: u64, server_id: u32 },
    /// Drop the client-side handle kept under `handle`.
    Unbind { handle: u64 },
    /// Block the calling thread for `millis` milliseconds.
    Sleep { millis: u64 },
    /// Send the cached payload that sets mute to `mute` to `handle`.
    SetMute { handle: u64, mute: bool },
    /// Wait until the server has acknowledged everything sent so far.
    Barrier,
}

} // verus!
