//! What the library reads of an input device and of its event stream.

use crate::binding::Phase;
use vstd::prelude::*;

verus! {

/// An open input device of `evdev`. The library reads nothing of it but the
/// set of keys that it reports.
#[verifier::external_type_specification]
#[verifier::external_body]
pub struct ExDevice(evdev::Device);

/// Whether `device` reports a set of supported keys at all.
pub uninterp spec fn reports_keys(device: evdev::Device) -> bool;

/// The codes of the keys that `device` reports as supported, where it reports
/// a set.
pub uninterp spec fn supported_key_codes(device: evdev::Device) -> Set<u16>;

/// Calls `evdev::Device::supported_keys` and, on the set that it returns,
/// `AttributeSetRef::contains`. Trusted: the answer is `None` exactly where the
/// device reports no key set, and otherwise says whether the key with the code
/// `code` is in it. The device got its key set when it was opened, so the
/// answer is a matter of the device value alone.
#[verifier::external_body]
fn device_has_key(device: &evdev::Device, code: u16) -> (has: Option<bool>)
    ensures
        has == if reports_keys(*device) {
            Some(supported_key_codes(*device).contains(code))
        } else {
            None
        },
{
    match device.supported_keys() {
        Some(keys) => Some(keys.contains(evdev::Key::new(code))),
        None => None,
    }
}

/// The code of the key F1. A device that has it is taken for a keyboard.
pub const KEY_F1: u16 = 59;

/// Whether a device is worth listening to, given whether it has the key F1;
/// `None` stands for a device that reports no keys at all.
pub fn is_keyboard(has_f1: Option<bool>) -> (r: bool)
    ensures
        r == (has_f1 == Some(true)),
{
    match has_f1 {
        Some(has) => has,
        None => false,
    }
}

/// Whether `device` is worth listening to: it reports keys, and F1 is among
/// them.
pub fn supports_keys(device: &evdev::Device) -> (r: bool)
    ensures
        r == (reports_keys(*device) && supported_key_codes(*device).contains(KEY_F1)),
{
    is_keyboard(device_has_key(device, KEY_F1))
}

/// The event type of key events in the Linux input protocol.
pub const EV_KEY: u16 = 1;

/// What a raw input event means to the dispatcher: the phase of a key, or
/// nothing. Only key events count, with the value 0 for a release and 1 for a
/// press. Every other value, that of an automatic repeat among them, is
/// filtered out here.
pub open spec fn phase_of(event_type: u16, value: i32) -> Option<Phase> {
    if event_type == EV_KEY && value == 1 {
        Some(Phase::Press)
    } else if event_type == EV_KEY && value == 0 {
        Some(Phase::Release)
    } else {
        None
    }
}

/// Executable form of [`phase_of`].
pub fn decode(event_type: u16, value: i32) -> (phase: Option<Phase>)
    ensures
        phase == phase_of(event_type, value),
{
    if event_type != EV_KEY {
        None
    } else if value == 1 {
        Some(Phase::Press)
    } else if value == 0 {
        Some(Phase::Release)
    } else {
        None
    }
}

/// The error number for "no such device" on Linux.
pub const ENODEV: i32 = 19;

/// Reads `libc::ENODEV`. Trusted: on Linux, where input devices are read,
/// `libc` defines it as 19.
#[verifier::external_body]
fn libc_enodev() -> (code: i32)
    ensures
        code == ENODEV,
{
    libc::ENODEV
}

/// What a worker does when reading its device fails.
#[derive(Clone, Copy, Debug, PartialEq, Eq, Structural)]
pub enum FetchFailure {
    /// The device was unplugged. The worker ends quietly; the others go on.
    DeviceRemoved,
    /// Anything else. The worker cannot go on.
    Fatal,
}

/// Classifies a failed read by the error number that the system reported, if
/// it reported one.
pub fn classify_fetch_error(raw_os_error: Option<i32>) -> (failure: FetchFailure)
    ensures
        failure == if raw_os_error == Some(ENODEV) {
            FetchFailure::DeviceRemoved
        } else {
            FetchFailure::Fatal
        },
{
    match raw_os_error {
        Some(code) => {
            if code == libc_enodev() {
                FetchFailure::DeviceRemoved
            } else {
                FetchFailure::Fatal
            }
        },
        None => FetchFailure::Fatal,
    }
}

} // verus!
