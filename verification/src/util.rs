//! Small conversions between bytes and the values that payloads hold.

use vstd::prelude::*;
use vstd::slice::slice_to_vec;
use vstd::string::*;
use crate::addr::{decimal, push_decimal, Ipv4Addr};
use crate::message::MessageError;

verus! {

/// The truth value that `byte` stands for: 0 is false, 1 is true, nothing
/// else is a truth value.
pub open spec fn bool_of_byte(byte: u8) -> Result<bool, MessageError> {
    if byte == 0 {
        Ok(false)
    } else if byte == 1 {
        Ok(true)
    } else {
        Err(MessageError::InvalidBoolean)
    }
}

/// The byte that stands for `boolean`.
pub open spec fn byte_of_bool(boolean: bool) -> u8 {
    if boolean {
        1
    } else {
        0
    }
}

/// Reads a truth value from its byte.
pub fn parse_bool(byte: u8) -> (parsed: Result<bool, MessageError>)
    ensures
        parsed == bool_of_byte(byte),
{
    if byte == 0 {
        Ok(false)
    } else if byte == 1 {
        Ok(true)
    } else {
        Err(MessageError::InvalidBoolean)
    }
}

/// Writes a truth value as its byte.
pub fn parse_byte(boolean: bool) -> (byte: u8)
    ensures
        byte == byte_of_bool(boolean),
{
    if boolean {
        1u8
    } else {
        0u8
    }
}

/// Copies four bytes into an array of four.
pub fn to_octets(arr: &[u8]) -> (octets: [u8; 4])
    requires
        arr@.len() == 4,
    ensures
        octets@ == arr@,
{
    let octets: [u8; 4] = [arr[0], arr[1], arr[2], arr[3]];
    assert(octets@ =~= arr@);
    octets
}

/// Reads an address from its four octets.
pub fn parse_ipv4(arr: &[u8]) -> (addr: Ipv4Addr)
    requires
        arr@.len() == 4,
    ensures
        addr.octets_spec() == arr@,
{
    let octets = to_octets(arr);
    let addr = Ipv4Addr::new(octets[0], octets[1], octets[2], octets[3]);
    assert(addr.octets_spec() =~= arr@);
    addr
}

/// Copies the bytes of a text.
pub fn parse_string(arr: &[u8]) -> (bytes: Vec<u8>)
    ensures
        bytes@ == arr@,
{
    slice_to_vec(arr)
}

/// The text that names the pair of `id1` and `id2`: the two decimal
/// numerals with a hyphen between them.
pub open spec fn composite_key_spec(id1: u8, id2: u8) -> Seq<char> {
    decimal(id1 as nat) + seq!['-'] + decimal(id2 as nat)
}

/// Names a pair of ids by one text.
pub fn composite_key(id1: &u8, id2: &u8) -> (key: String)
    ensures
        key@ == composite_key_spec(*id1, *id2),
{
    proof {
        reveal_strlit("-");
        reveal_strlit("");
    }
    let mut key = String::from_str("");
    push_decimal(&mut key, *id1);
    key.append("-");
    push_decimal(&mut key, *id2);
    assert(key@ =~= composite_key_spec(*id1, *id2));
    key
}

} // verus!
