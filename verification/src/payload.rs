//! The two request payloads, "set mute to true" and "set mute to false".
//!
//! They are encoded once, when the program starts, and handed to every worker
//! by reference. Sending one sets the property to a fixed value, whatever it
//! was before.

use vstd::prelude::*;

verus! {

/// The cached payloads.
pub struct MutePayloads {
    mute: Vec<u8>,
    unmute: Vec<u8>,
}

impl MutePayloads {
    /// The bytes that set mute to `mute`.
    pub closed spec fn bytes(&self, mute: bool) -> Seq<u8> {
        if mute {
            self.mute@
        } else {
            self.unmute@
        }
    }

    /// Keeps `mute`, the encoded request for "mute", and `unmute`, the one for
    /// "unmute".
    pub fn new(mute: Vec<u8>, unmute: Vec<u8>) -> (p: Self)
        ensures
            p.bytes(true) == mute@,
            p.bytes(false) == unmute@,
    {
        MutePayloads { mute, unmute }
    }

    /// The payload to send for a request to set mute to `mute`. Nothing is
    /// copied and nothing changes: the same request gets the same bytes.
    pub fn select(&self, mute: bool) -> (payload: &Vec<u8>)
        ensures
            payload@ == self.bytes(mute),
    {
        if mute {
            &self.mute
        } else {
            &self.unmute
        }
    }
}

} // verus!
