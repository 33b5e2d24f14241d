//! The message that carries descriptors and their target paths.
//!
//! On the wire a message is three packets: the length of the payload as a
//! machine word, the number of descriptors as a machine word, and one packet
//! whose bytes are the payload, the serialized list of target paths, and
//! whose ancillary data are the descriptors.

use crate::encoding::{
    decoded_paths, encoded_paths, holds_paths, lemma_written_paths_are_read_back,
};
use crate::error::{ConfigurationFault, ProtocolFault};
use crate::wire::{decoded_word, encode_word};
use vstd::prelude::*;

verus! {

/// Why bincode could not read or write a value.
#[verifier::external_type_specification]
#[verifier::external_body]
pub struct ExBincodeErrorKind(bincode::ErrorKind);

/// `bincode::serialize` on a list of strings. The contract claims that it
/// gives bytes for every list, and that they are the list as
/// `encoded_paths` writes it: the number of strings, then for each string
/// the number of its bytes and its bytes, each number as eight bytes with
/// the least significant first. It fails on nothing here: it writes
/// without a limit on the size and into memory, the length of a list is
/// known, and every string has a form.
#[verifier::external_body]
fn serialize_paths(paths: &Vec<String>) -> (r: Result<Vec<u8>, Box<bincode::ErrorKind>>)
    ensures
        r is Ok,
        r matches Ok(bytes) ==> bytes@ == encoded_paths(paths.deep_view()),
{
    bincode::serialize(paths)
}

/// `bincode::deserialize` to a list of strings. The contract claims that a
/// list is read where the bytes begin with one as `encoded_paths` writes
/// it, whatever follows it, that the list read is one that they begin
/// with, and that nothing is read where they begin with none.
#[verifier::external_body]
fn deserialize_paths(bytes: &[u8]) -> (r: Result<Vec<String>, Box<bincode::ErrorKind>>)
    ensures
        match r {
            Ok(paths) => holds_paths(bytes@, paths.deep_view()),
            Err(_) => decoded_paths(bytes@) is None,
        },
{
    bincode::deserialize(bytes)
}

/// Serializes a list of target paths into the payload of a message: every
/// list has one.
pub fn encode_targets(targets: &Vec<String>) -> (r: Result<Vec<u8>, ConfigurationFault>)
    ensures
        r matches Ok(payload) && payload@ == encoded_paths(targets.deep_view()),
{
    match serialize_paths(targets) {
        Ok(payload) => Ok(payload),
        Err(_) => Err(ConfigurationFault::Unserializable),
    }
}

/// What the payload of a message holds: the list of target paths that it
/// begins with, or the fault of a payload that begins with none.
pub open spec fn decoded_targets(payload: Seq<u8>) -> Result<Seq<Seq<char>>, ProtocolFault> {
    match decoded_paths(payload) {
        Some(targets) => Ok(targets),
        None => Err(ProtocolFault::MalformedTargets),
    }
}

/// Reads the list of target paths from the payload of a message.
pub fn decode_targets(payload: &[u8]) -> (r: Result<Vec<String>, ProtocolFault>)
    ensures
        match r {
            Ok(targets) => decoded_targets(payload@) == Ok::<Seq<Seq<char>>, ProtocolFault>(
                targets.deep_view(),
            ),
            Err(fault) => decoded_targets(payload@) == Err::<Seq<Seq<char>>, ProtocolFault>(fault),
        },
{
    match deserialize_paths(payload) {
        Ok(targets) => {
            proof {
                assert(payload@.len() == payload.len());
                lemma_written_paths_are_read_back(targets.deep_view(), payload@);
            }
            Ok(targets)
        },
        Err(_) => Err(ProtocolFault::MalformedTargets),
    }
}

/// The two length fields that announce a message.
#[derive(Clone, Copy, Debug, PartialEq, Eq, Structural)]
pub struct Header {
    /// The number of bytes in the payload.
    pub payload_len: usize,
    /// The number of descriptors.
    pub descriptor_count: usize,
}

/// The fault of a packet that does not arrive as announced: the first of a
/// wrong number of descriptors, a wrong number of bytes, and bytes cut off
/// because more were sent than announced.
pub open spec fn delivery_fault(
    header: Header,
    payload_len: nat,
    truncated: bool,
    descriptor_count: nat,
) -> Option<ProtocolFault> {
    if descriptor_count != header.descriptor_count {
        Some(
            ProtocolFault::DescriptorCount {
                announced: header.descriptor_count,
                received: descriptor_count as usize,
            },
        )
    } else if payload_len != header.payload_len {
        Some(
            ProtocolFault::PayloadLength {
                announced: header.payload_len,
                received: payload_len as usize,
            },
        )
    } else if truncated {
        Some(ProtocolFault::Truncated { announced: header.payload_len })
    } else {
        None
    }
}

/// Holds what arrived against what was announced.
pub fn check_delivery(
    header: Header,
    payload_len: usize,
    truncated: bool,
    descriptor_count: usize,
) -> (r: Result<(), ProtocolFault>)
    ensures
        r == match delivery_fault(header, payload_len as nat, truncated, descriptor_count as nat) {
            Some(fault) => Err::<(), ProtocolFault>(fault),
            None => Ok(()),
        },
{
    if descriptor_count != header.descriptor_count {
        Err(
            ProtocolFault::DescriptorCount {
                announced: header.descriptor_count,
                received: descriptor_count,
            },
        )
    } else if payload_len != header.payload_len {
        Err(ProtocolFault::PayloadLength { announced: header.payload_len, received: payload_len })
    } else if truncated {
        Err(ProtocolFault::Truncated { announced: header.payload_len })
    } else {
        Ok(())
    }
}

/// One packet of a message.
#[derive(Debug)]
pub enum Packet<'a> {
    /// A length field: one machine word.
    Word(Vec<u8>),
    /// The payload, with the descriptors as ancillary data.
    Bundle { payload: &'a [u8], descriptors: &'a [i32] },
}

/// One message: the target paths, serialized, and as many descriptors, in
/// the same order. It is built once and never changed.
#[derive(Debug)]
pub struct TransferMessage {
    targets: Vec<String>,
    payload: Vec<u8>,
    descriptors: Vec<i32>,
}

impl TransferMessage {
    /// The target paths, in order.
    pub closed spec fn targets(&self) -> Seq<Seq<char>> {
        self.targets.deep_view()
    }

    /// The serialized target paths.
    pub closed spec fn payload_bytes(&self) -> Seq<u8> {
        self.payload@
    }

    /// The descriptors, in order.
    pub closed spec fn descriptor_list(&self) -> Seq<i32> {
        self.descriptors@
    }

    /// The length fields that announce the message.
    pub open spec fn announced(&self) -> Header {
        Header {
            payload_len: self.payload_bytes().len() as usize,
            descriptor_count: self.descriptor_list().len() as usize,
        }
    }

    /// There are as many descriptors as target paths, and the payload is
    /// the list of target paths as it is written on the wire. Both lengths
    /// fit a machine word.
    #[verifier::type_invariant]
    pub open spec fn wf(&self) -> bool {
        &&& self.payload_bytes().len() <= usize::MAX
        &&& self.descriptor_list().len() <= usize::MAX
        &&& self.targets().len() == self.descriptor_list().len()
        &&& self.payload_bytes() == encoded_paths(self.targets())
    }

    /// Builds the message for target paths and the descriptors that belong
    /// to them, one for one. There is a message wherever there are as many
    /// descriptors as target paths.
    pub fn build(targets: Vec<String>, descriptors: Vec<i32>) -> (r: Result<
        Self,
        ConfigurationFault,
    >)
        ensures
            match r {
                Ok(message) => targets@.len() == descriptors@.len() && message.wf()
                    && message.targets() == targets.deep_view() && message.descriptor_list()
                    == descriptors@,
                Err(fault) => targets@.len() != descriptors@.len() && fault
                    == (ConfigurationFault::DescriptorCount {
                    bindings: targets@.len() as usize,
                    descriptors: descriptors@.len() as usize,
                }),
            },
    {
        if targets.len() != descriptors.len() {
            return Err(
                ConfigurationFault::DescriptorCount {
                    bindings: targets.len(),
                    descriptors: descriptors.len(),
                },
            );
        }
        match encode_targets(&targets) {
            Ok(payload) => {
                assert(payload@.len() == payload.len() && descriptors@.len() == descriptors.len());
                Ok(Self { targets, payload, descriptors })
            },
            Err(fault) => Err(fault),
        }
    }

    /// The length fields that announce the message.
    pub fn header(&self) -> (header: Header)
        ensures
            header == self.announced(),
    {
        Header { payload_len: self.payload.len(), descriptor_count: self.descriptors.len() }
    }

    /// The packet that is sent at place `index`: first the length of the
    /// payload, then the number of descriptors, then the payload with the
    /// descriptors; after these, nothing.
    pub fn packet(&self, index: usize) -> (r: Option<Packet<'_>>)
        ensures
            self.wf(),
            match r {
                Some(Packet::Word(bytes)) => (index == 0 && decoded_word(bytes@) == Ok::<
                    usize,
                    ProtocolFault,
                >(self.announced().payload_len)) || (index == 1 && decoded_word(bytes@) == Ok::<
                    usize,
                    ProtocolFault,
                >(self.announced().descriptor_count)),
                Some(Packet::Bundle { payload, descriptors }) => index == 2 && payload@
                    == self.payload_bytes() && descriptors@ == self.descriptor_list(),
                None => index > 2,
            },
    {
        proof {
            use_type_invariant(self);
        }
        if index == 0 {
            Some(Packet::Word(encode_word(self.payload.len())))
        } else if index == 1 {
            Some(Packet::Word(encode_word(self.descriptors.len())))
        } else if index == 2 {
            Some(
                Packet::Bundle {
                    payload: self.payload.as_slice(),
                    descriptors: self.descriptors.as_slice(),
                },
            )
        } else {
            None
        }
    }

    /// The bytes of the third packet.
    pub fn payload(&self) -> (bytes: &[u8])
        ensures
            bytes@ == self.payload_bytes(),
    {
        self.payload.as_slice()
    }

    /// The descriptors that travel with the third packet.
    pub fn descriptors(&self) -> (descriptors: &[i32])
        ensures
            descriptors@ == self.descriptor_list(),
    {
        self.descriptors.as_slice()
    }

    /// The target paths that the payload holds.
    pub fn target_paths(&self) -> (targets: &[String])
        ensures
            targets@.len() == self.targets().len(),
            forall|i: int| 0 <= i < targets@.len() ==> (#[trigger] targets@[i])@ == self.targets()[i],
    {
        self.targets.as_slice()
    }
}

} // verus!
