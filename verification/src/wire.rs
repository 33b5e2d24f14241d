//! Machine words on the wire.
//!
//! The two length fields of a message travel as machine words in the byte
//! order of the machine: both ends run on the same one.

use crate::error::ProtocolFault;
use vstd::endian::{endianness, Endian};
use vstd::layout::size_of;
use vstd::prelude::*;

verus! {

/// The value of `bytes` read with the least significant byte first.
pub open spec fn little_endian_value(bytes: Seq<u8>) -> nat
    decreases bytes.len(),
{
    if bytes.len() == 0 {
        0
    } else {
        bytes[0] as nat + 256 * little_endian_value(bytes.drop_first())
    }
}

/// The value of `bytes` read in the byte order of the machine.
pub open spec fn native_value(bytes: Seq<u8>) -> nat {
    match endianness() {
        Endian::Little => little_endian_value(bytes),
        Endian::Big => little_endian_value(bytes.reverse()),
    }
}

/// The number of bytes in a machine word.
pub open spec fn word_size() -> nat {
    size_of::<usize>()
}

/// What a length field that arrived as `received` says: its value if it is
/// one machine word long.
pub open spec fn decoded_word(received: Seq<u8>) -> Result<usize, ProtocolFault> {
    if received.len() == word_size() {
        Ok(native_value(received) as usize)
    } else {
        Err(ProtocolFault::WordLength { received: received.len() as usize })
    }
}

/// `usize::to_ne_bytes`: the memory representation of `value` in the byte
/// order of the machine. The contract claims that the result is one word
/// long and that, read in that byte order, it is `value`.
#[verifier::external_body]
fn word_to_ne_bytes(value: usize) -> (bytes: Vec<u8>)
    ensures
        bytes@.len() == word_size(),
        native_value(bytes@) == value,
{
    value.to_ne_bytes().to_vec()
}

/// `usize::from_ne_bytes`: the word whose memory representation in the
/// byte order of the machine is `bytes`. The contract claims that the
/// result is `bytes` read in that byte order.
#[verifier::external_body]
fn word_from_ne_bytes(bytes: &[u8]) -> (value: usize)
    requires
        bytes@.len() == word_size(),
    ensures
        value == native_value(bytes@),
{
    usize::from_ne_bytes(bytes.try_into().unwrap_or_default())
}

/// The bytes that announce `value` on the wire.
pub fn encode_word(value: usize) -> (bytes: Vec<u8>)
    ensures
        bytes@.len() == word_size(),
        native_value(bytes@) == value,
        decoded_word(bytes@) == Ok::<usize, ProtocolFault>(value),
{
    word_to_ne_bytes(value)
}

/// Reads a length field from the bytes that arrived for it.
pub fn decode_word(received: &[u8]) -> (r: Result<usize, ProtocolFault>)
    ensures
        r == decoded_word(received@),
{
    if received.len() == core::mem::size_of::<usize>() {
        Ok(word_from_ne_bytes(received))
    } else {
        Err(ProtocolFault::WordLength { received: received.len() })
    }
}

} // verus!
