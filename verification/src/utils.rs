//! Helpers for building argument areas.

use crate::wire::{put_string, wayland_string};
use vstd::prelude::*;
use vstd::string::StringSliceAdditionalSpecFns;

verus! {

/// The bytes of `s` as a string argument: the length with the terminator
/// counted, the UTF-8 bytes, the terminator, and zero padding to a multiple
/// of four.
pub fn get_wayland_string_bytes(s: &str) -> (bytes: Vec<u8>)
    requires
        s.spec_bytes().len() < u32::MAX,
    ensures
        bytes@ == wayland_string(s.spec_bytes()),
{
    let mut bytes: Vec<u8> = Vec::new();
    put_string(&mut bytes, s.as_bytes());
    bytes
}

} // verus!
