//! Letter keys read by their place on the keyboard.

use vstd::prelude::*;

verus! {

/// The letter keys that are read by their place on the keyboard, whatever
/// its layout.
#[derive(Clone, Copy, Debug, PartialEq, Eq, Structural)]
pub enum MappedKey {
    W,
    A,
    S,
    D,
}

/// The key at scan code `code`, where it is one of the mapped keys.
pub open spec fn mapped_key(code: u32) -> Option<MappedKey> {
    if code == 17 {
        Some(MappedKey::W)
    } else if code == 30 {
        Some(MappedKey::A)
    } else if code == 31 {
        Some(MappedKey::S)
    } else if code == 32 {
        Some(MappedKey::D)
    } else {
        None
    }
}

/// The key at scan code `code`, where it is one of the mapped keys.
pub fn key_for_scan_code(code: u32) -> (r: Option<MappedKey>)
    ensures
        r == mapped_key(code),
{
    match code {
        17 => Some(MappedKey::W),
        30 => Some(MappedKey::A),
        31 => Some(MappedKey::S),
        32 => Some(MappedKey::D),
        _ => None,
    }
}

} // verus!
