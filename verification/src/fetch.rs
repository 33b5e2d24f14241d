//! The receiving side of one exchange: from what arrived on the socket to
//! the descriptors and the paths under which they are published.

use crate::codec::{
    check_delivery, decode_targets, decoded_targets, delivery_fault, Header, TransferMessage,
};
use crate::descriptor::{
    all_transferable, are_fresh_copies, check_descriptors, duplicate_all, is_reserved,
    lemma_first_reserved, reserved_fault,
};
use crate::encoding::lemma_written_paths_are_read_back;
use crate::error::ProtocolFault;
use vstd::prelude::*;

verus! {

/// What one exchange yields: target paths, each with the descriptor that is
/// published under it, in the order in which they were sent.
#[derive(Debug)]
pub struct DescriptorMap {
    targets: Vec<String>,
    descriptors: Vec<i32>,
}

/// The fault of target paths and descriptors that do not make a map: the
/// first of a different number of each, and a reserved descriptor.
pub open spec fn pairing_fault(targets: nat, descriptors: Seq<i32>) -> Option<ProtocolFault> {
    if targets != descriptors.len() {
        Some(
            ProtocolFault::TargetCount {
                targets: targets as usize,
                descriptors: descriptors.len() as usize,
            },
        )
    } else {
        reserved_fault(descriptors)
    }
}

impl DescriptorMap {
    /// The target paths, in order.
    pub closed spec fn targets(&self) -> Seq<Seq<char>> {
        self.targets.deep_view()
    }

    /// The descriptors, in order.
    pub closed spec fn descriptor_list(&self) -> Seq<i32> {
        self.descriptors@
    }

    /// The pairs of target path and descriptor, in order.
    pub open spec fn entries(&self) -> Seq<(Seq<char>, i32)> {
        Seq::new(self.targets().len(), |i: int| (self.targets()[i], self.descriptor_list()[i]))
    }

    /// Every target path has its descriptor, and no descriptor is one of
    /// the standard streams. The number of entries fits a machine word.
    #[verifier::type_invariant]
    pub open spec fn wf(&self) -> bool {
        &&& self.targets().len() <= usize::MAX
        &&& self.targets().len() == self.descriptor_list().len()
        &&& all_transferable(self.descriptor_list())
    }

    /// Pairs target paths with descriptors, one for one and in order.
    pub fn pair(targets: Vec<String>, descriptors: Vec<i32>) -> (r: Result<Self, ProtocolFault>)
        ensures
            match r {
                Ok(map) => map.wf() && map.targets() == targets.deep_view()
                    && map.descriptor_list() == descriptors@ && pairing_fault(
                    targets@.len(),
                    descriptors@,
                ) is None,
                Err(fault) => pairing_fault(targets@.len(), descriptors@) == Some(fault),
            },
    {
        if targets.len() != descriptors.len() {
            return Err(
                ProtocolFault::TargetCount {
                    targets: targets.len(),
                    descriptors: descriptors.len(),
                },
            );
        }
        match check_descriptors(descriptors.as_slice()) {
            Ok(_) => {
                Ok(Self { targets, descriptors })
            },
            Err(fault) => Err(fault),
        }
    }

    /// The number of entries.
    pub fn len(&self) -> (n: usize)
        ensures
            n == self.targets().len(),
    {
        self.targets.len()
    }

    /// Whether the map has no entry.
    pub fn is_empty(&self) -> (empty: bool)
        ensures
            empty == (self.targets().len() == 0),
    {
        self.targets.len() == 0
    }

    /// The entry at `index`, if there is one.
    pub fn entry(&self, index: usize) -> (r: Option<(&str, i32)>)
        ensures
            self.wf(),
            match r {
                Some((target, descriptor)) => index < self.entries().len() && target@
                    == self.entries()[index as int].0 && descriptor
                    == self.entries()[index as int].1 && !is_reserved(descriptor),
                None => index >= self.entries().len(),
            },
    {
        proof {
            use_type_invariant(self);
        }
        if index < self.targets.len() {
            Some((self.targets[index].as_str(), self.descriptors[index]))
        } else {
            None
        }
    }
}

/// The target paths of a packet that arrived as `payload`, cut off or not,
/// with `descriptors`, after the packets of `header`; or the first fault
/// found in it. The packet must arrive as announced, the payload must hold
/// as many target paths as there are descriptors, and no descriptor may be
/// reserved.
pub open spec fn received_targets(
    header: Header,
    payload: Seq<u8>,
    truncated: bool,
    descriptors: Seq<i32>,
) -> Result<Seq<Seq<char>>, ProtocolFault> {
    match delivery_fault(header, payload.len(), truncated, descriptors.len()) {
        Some(fault) => Err(fault),
        None => match decoded_targets(payload) {
            Err(fault) => Err(fault),
            Ok(targets) => match pairing_fault(targets.len(), descriptors) {
                Some(fault) => Err(fault),
                None => Ok(targets),
            },
        },
    }
}

/// Makes the buffers for the third packet of a message that `header`
/// announces: one for as many bytes as announced, and one for as many
/// descriptors, each filled with what is no descriptor.
pub fn receive_buffers(header: Header) -> (buffers: (Vec<u8>, Vec<i32>))
    ensures
        buffers.0@ == Seq::new(header.payload_len as nat, |i: int| 0u8),
        buffers.1@ == Seq::new(header.descriptor_count as nat, |i: int| -1i32),
{
    let mut payload: Vec<u8> = Vec::new();
    while payload.len() < header.payload_len
        invariant
            payload@.len() <= header.payload_len,
            forall|i: int| 0 <= i < payload@.len() ==> payload@[i] == 0u8,
        decreases header.payload_len - payload@.len(),
    {
        payload.push(0);
    }
    let mut descriptors: Vec<i32> = Vec::new();
    while descriptors.len() < header.descriptor_count
        invariant
            descriptors@.len() <= header.descriptor_count,
            forall|i: int| 0 <= i < descriptors@.len() ==> descriptors@[i] == -1i32,
        decreases header.descriptor_count - descriptors@.len(),
    {
        descriptors.push(-1);
    }
    (payload, descriptors)
}

/// Turns what arrived into a descriptor map.
///
/// `payload` holds the bytes that arrived in the third packet, `truncated`
/// says whether bytes were cut off, and `descriptors` holds the descriptors
/// that arrived with it. Whatever departs from the protocol is refused.
/// Then each descriptor is duplicated to a fresh number outside the
/// reserved range, in order, and the copies are paired with the target
/// paths: the copy of a descriptor stands where the descriptor stood.
/// Nothing is returned for a part of the message.
pub fn receive(header: Header, payload: &[u8], truncated: bool, descriptors: &[i32]) -> (r: Result<
    DescriptorMap,
    ProtocolFault,
>)
    ensures
        match r {
            Ok(map) => map.wf() && map.targets().len() == header.descriptor_count
                && received_targets(header, payload@, truncated, descriptors@) == Ok::<
                Seq<Seq<char>>,
                ProtocolFault,
            >(map.targets()) && are_fresh_copies(descriptors@, map.descriptor_list()),
            Err(fault) => match received_targets(header, payload@, truncated, descriptors@) {
                Err(found) => fault == found,
                Ok(_) => exists|i: int|
                    0 <= i < descriptors@.len() && fault == (ProtocolFault::Unduplicable {
                        descriptor: #[trigger] descriptors@[i],
                    }),
            },
        },
        descriptors@.len() == 0 && received_targets(header, payload@, truncated, descriptors@)
            is Ok ==> r is Ok,
{
    match check_delivery(header, payload.len(), truncated, descriptors.len()) {
        Ok(_) => {},
        Err(fault) => {
            return Err(fault);
        },
    }
    let targets = match decode_targets(payload) {
        Ok(targets) => targets,
        Err(fault) => {
            return Err(fault);
        },
    };
    if targets.len() != descriptors.len() {
        return Err(
            ProtocolFault::TargetCount { targets: targets.len(), descriptors: descriptors.len() },
        );
    }
    match check_descriptors(descriptors) {
        Ok(_) => {},
        Err(fault) => {
            return Err(fault);
        },
    }
    let copies = match duplicate_all(descriptors) {
        Ok(copies) => copies,
        Err(fault) => {
            return Err(fault);
        },
    };
    proof {
        lemma_first_reserved(copies@);
    }
    DescriptorMap::pair(targets, copies)
}

/// A faithful exchange keeps the target paths and their order.
///
/// When the packets of a message arrive as they were sent, with as many
/// descriptors as were sent and none of them reserved, then what is
/// received is the list of target paths that the message was built from:
/// as many, and in the same order.
pub proof fn lemma_exchange_keeps_targets(message: TransferMessage, arrived: Seq<i32>)
    requires
        message.wf(),
        arrived.len() == message.descriptor_list().len(),
        all_transferable(arrived),
    ensures
        received_targets(message.announced(), message.payload_bytes(), false, arrived) == Ok::<
            Seq<Seq<char>>,
            ProtocolFault,
        >(message.targets()),
{
    lemma_first_reserved(arrived);
    lemma_written_paths_are_read_back(message.targets(), message.payload_bytes());
}

/// A packet that does not arrive as announced is refused.
///
/// Whatever else holds of it, a packet with another number of descriptors
/// than announced is refused for that, and one with another number of
/// bytes than announced, or with bytes cut off, is refused as well.
pub proof fn lemma_mismatch_is_refused(
    header: Header,
    payload: Seq<u8>,
    truncated: bool,
    descriptors: Seq<i32>,
)
    ensures
        descriptors.len() != header.descriptor_count ==> received_targets(
            header,
            payload,
            truncated,
            descriptors,
        ) == Err::<Seq<Seq<char>>, ProtocolFault>(
            ProtocolFault::DescriptorCount {
                announced: header.descriptor_count,
                received: descriptors.len() as usize,
            },
        ),
        descriptors.len() == header.descriptor_count && payload.len() != header.payload_len
            ==> received_targets(header, payload, truncated, descriptors) == Err::<
            Seq<Seq<char>>,
            ProtocolFault,
        >(
            ProtocolFault::PayloadLength {
                announced: header.payload_len,
                received: payload.len() as usize,
            },
        ),
        payload.len() != header.payload_len || truncated ==> received_targets(
            header,
            payload,
            truncated,
            descriptors,
        ) is Err,
{
}

/// No reserved descriptor is received.
///
/// A list of descriptors with one numbered 0, 1 or 2, or below, is never
/// received, whatever else arrives with it.
pub proof fn lemma_reserved_is_refused(
    header: Header,
    payload: Seq<u8>,
    truncated: bool,
    descriptors: Seq<i32>,
    i: int,
)
    requires
        0 <= i < descriptors.len(),
        is_reserved(descriptors[i]),
    ensures
        received_targets(header, payload, truncated, descriptors) is Err,
{
    lemma_first_reserved(descriptors);
}

} // verus!
