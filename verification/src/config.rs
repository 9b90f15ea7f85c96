//! The configuration surface: from pairs of an endpoint name and a key name
//! to bindings.
//!
//! Key names are those of the Linux input event codes, such as `KEY_A`. A key
//! name that does not resolve is an error, and the program is expected to
//! stop on it. An endpoint name that the server never reports is none: its
//! binding simply never gets a row.

use crate::binding::{Binding, KeyType};
use std::str::FromStr;
use vstd::prelude::*;

verus! {

/// The code of the key called `name`, as `evdev` resolves it; `None` where it
/// knows no key of that name.
pub uninterp spec fn key_code_of_name(name: Seq<char>) -> Option<u16>;

/// Calls `<evdev::Key as FromStr>::from_str` and takes the code out of the
/// key. Trusted: the result is the one that the name
/// [`key_code_of_name`] stands for, which is to say that `evdev` resolves a
/// name the same way every time. It looks the name up in a fixed list.
#[verifier::external_body]
fn parse_key(name: &str) -> (code: Option<u16>)
    ensures
        code == key_code_of_name(name@),
{
    match evdev::Key::from_str(name) {
        Ok(key) => Some(key.code()),
        Err(_) => None,
    }
}

/// Why a configuration was refused.
#[derive(Clone, Copy, Debug, PartialEq, Eq, Structural)]
pub enum ConfigError {
    /// The key name of the `index`-th pair given for `mode` names no key.
    UnknownKey { mode: KeyType, index: usize },
}

/// The binding for the `index`-th pair given for `mode`, once its key name has
/// been looked up with the result `code`.
pub fn binding_from(endpoint_name: String, code: Option<u16>, mode: KeyType, index: usize) -> (r:
    Result<Binding, ConfigError>)
    ensures
        r == match code {
            Some(key) => Ok::<Binding, ConfigError>(Binding { endpoint_name, key, mode }),
            None => Err::<Binding, ConfigError>(ConfigError::UnknownKey { mode, index }),
        },
{
    match code {
        Some(key) => Ok(Binding { endpoint_name, key, mode }),
        None => Err(ConfigError::UnknownKey { mode, index }),
    }
}

/// Whether `binding` is what the pair `(endpoint_name, key_name)` asks for in
/// `mode`.
pub open spec fn binds_pair(binding: Binding, pair: (String, String), mode: KeyType) -> bool {
    &&& binding.endpoint_name@ == pair.0@
    &&& key_code_of_name(pair.1@) == Some(binding.key)
    &&& binding.mode == mode
}

/// Whether `bindings` are what `pairs` ask for in `mode`, one binding for each
/// pair and in the same order.
pub open spec fn bind_pairs(bindings: Seq<Binding>, pairs: Seq<(String, String)>, mode: KeyType)
    -> bool {
    &&& bindings.len() == pairs.len()
    &&& forall|i: int|
        0 <= i < pairs.len() ==> binds_pair(#[trigger] bindings[i], pairs[i], mode)
}

/// Whether the `index`-th pair is the first whose key name names no key.
pub open spec fn first_unknown_key(pairs: Seq<(String, String)>, index: int) -> bool {
    &&& 0 <= index < pairs.len()
    &&& key_code_of_name(pairs[index].1@) is None
    &&& forall|j: int| 0 <= j < index ==> key_code_of_name((#[trigger] pairs[j]).1@) is Some
}

/// Turns the pairs of an endpoint name and a key name that were given for
/// `mode` into bindings. Succeeds exactly if every key name names a key;
/// otherwise the error points at the first that does not.
pub fn node_args(pairs: &Vec<(String, String)>, mode: KeyType) -> (r: Result<
    Vec<Binding>,
    ConfigError,
>)
    ensures
        match r {
            Ok(bindings) => bind_pairs(bindings@, pairs@, mode),
            Err(ConfigError::UnknownKey { mode: m, index }) => m == mode && first_unknown_key(
                pairs@,
                index as int,
            ),
        },
{
    let mut bindings: Vec<Binding> = Vec::new();
    let mut i: usize = 0;
    while i < pairs.len()
        invariant
            i <= pairs.len(),
            bind_pairs(bindings@, pairs@.take(i as int), mode),
        decreases pairs.len() - i,
    {
        let code = parse_key(pairs[i].1.as_str());
        match binding_from(pairs[i].0.clone(), code, mode, i) {
            Ok(binding) => {
                bindings.push(binding);
            },
            Err(e) => {
                assert forall|j: int| 0 <= j < i implies key_code_of_name(
                    (#[trigger] pairs@[j]).1@,
                ) is Some by {
                    assert(binds_pair(bindings@[j], pairs@.take(i as int)[j], mode));
                }
                return Err(e);
            },
        }
        i += 1;
    }
    assert(pairs@.take(i as int) == pairs@);
    Ok(bindings)
}

/// All bindings of a configuration: those of the hold pairs first, then those
/// of the toggle pairs. The order is the order in which rows are made and
/// requests are sent.
pub fn all_bindings(hold: &Vec<(String, String)>, toggle: &Vec<(String, String)>) -> (r: Result<
    Vec<Binding>,
    ConfigError,
>)
    ensures
        match r {
            Ok(bindings) => {
                &&& bindings@.len() == hold@.len() + toggle@.len()
                &&& bind_pairs(bindings@.take(hold@.len() as int), hold@, KeyType::Hold)
                &&& bind_pairs(bindings@.skip(hold@.len() as int), toggle@, KeyType::Toggle)
            },
            Err(ConfigError::UnknownKey { mode, index }) => match mode {
                KeyType::Hold => first_unknown_key(hold@, index as int),
                KeyType::Toggle => first_unknown_key(toggle@, index as int) && forall|j: int|
                    0 <= j < hold@.len() ==> key_code_of_name((#[trigger] hold@[j]).1@) is Some,
            },
        },
{
    let mut bindings = match node_args(hold, KeyType::Hold) {
        Ok(bindings) => bindings,
        Err(e) => {
            return Err(e);
        },
    };
    let mut more = match node_args(toggle, KeyType::Toggle) {
        Ok(more) => more,
        Err(e) => {
            assert forall|j: int| 0 <= j < hold@.len() implies key_code_of_name(
                (#[trigger] hold@[j]).1@,
            ) is Some by {
                assert(binds_pair(bindings@[j], hold@[j], KeyType::Hold));
            }
            return Err(e);
        },
    };
    let ghost first = bindings@;
    let ghost second = more@;
    bindings.append(&mut more);
    assert(bindings@.take(hold@.len() as int) == first);
    assert(bindings@.skip(hold@.len() as int) == second);
    Ok(bindings)
}

} // verus!
