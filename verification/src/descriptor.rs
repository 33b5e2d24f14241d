//! Descriptors on the receiving side: which are accepted, and how they are
//! moved out of the range of the standard streams.

use crate::error::ProtocolFault;
use vstd::prelude::*;

verus! {

/// Lowest descriptor number that is accepted: 0, 1 and 2 are the standard
/// input, output and error of the receiving process and could confuse it
/// or its children.
pub const MIN_FD: i32 = 3;

/// The error number of a failed system call.
#[verifier::external_type_specification]
#[verifier::external_body]
pub struct ExErrno(nix::errno::Errno);

/// Whether the descriptor lies in the range kept for the standard streams.
pub open spec fn is_reserved(descriptor: i32) -> bool {
    descriptor < MIN_FD
}

/// Index of the first reserved descriptor, or the length of the list if
/// there is none.
pub open spec fn first_reserved(descriptors: Seq<i32>) -> int
    decreases descriptors.len(),
{
    if descriptors.len() == 0 {
        0
    } else if is_reserved(descriptors[0]) {
        0
    } else {
        1 + first_reserved(descriptors.drop_first())
    }
}

/// The first reserved descriptor is in the list, and none before it is
/// reserved; without one, no descriptor of the list is reserved.
pub proof fn lemma_first_reserved(descriptors: Seq<i32>)
    ensures
        0 <= first_reserved(descriptors) <= descriptors.len(),
        first_reserved(descriptors) < descriptors.len() ==> is_reserved(
            descriptors[first_reserved(descriptors)],
        ),
        forall|i: int| 0 <= i < first_reserved(descriptors) ==> !is_reserved(descriptors[i]),
    decreases descriptors.len(),
{
    if descriptors.len() > 0 && !is_reserved(descriptors[0]) {
        let rest = descriptors.drop_first();
        lemma_first_reserved(rest);
        assert forall|i: int| 0 <= i < first_reserved(descriptors) implies !is_reserved(
            descriptors[i],
        ) by {
            if i > 0 {
                assert(descriptors[i] == rest[i - 1]);
            }
        }
    }
}

/// What holds of a list of descriptors that may be handed on: none is
/// reserved.
pub open spec fn all_transferable(descriptors: Seq<i32>) -> bool {
    forall|i: int| 0 <= i < descriptors.len() ==> !is_reserved(#[trigger] descriptors[i])
}

/// The fault of a list of received descriptors: its first reserved one.
pub open spec fn reserved_fault(descriptors: Seq<i32>) -> Option<ProtocolFault> {
    if first_reserved(descriptors) < descriptors.len() {
        Some(
            ProtocolFault::ReservedDescriptor {
                descriptor: descriptors[first_reserved(descriptors)],
            },
        )
    } else {
        None
    }
}

/// Looks for a reserved descriptor and reports the first one.
pub fn check_descriptors(descriptors: &[i32]) -> (r: Result<(), ProtocolFault>)
    ensures
        r == match reserved_fault(descriptors@) {
            Some(fault) => Err::<(), ProtocolFault>(fault),
            None => Ok(()),
        },
        r is Ok <==> all_transferable(descriptors@),
{
    let mut i: usize = 0;
    assert(descriptors@.skip(0) =~= descriptors@);
    while i < descriptors.len()
        invariant
            i <= descriptors.len(),
            forall|k: int| 0 <= k < i ==> !is_reserved(descriptors@[k]),
            first_reserved(descriptors@) == i + first_reserved(descriptors@.skip(i as int)),
        decreases descriptors.len() - i,
    {
        let ghost rest = descriptors@.skip(i as int);
        if descriptors[i] < MIN_FD {
            return Err(ProtocolFault::ReservedDescriptor { descriptor: descriptors[i] });
        }
        assert(rest.drop_first() =~= descriptors@.skip(i + 1));
        i = i + 1;
    }
    Ok(())
}

/// `nix::fcntl::fcntl` with `F_DUPFD`: asks the system for a copy of
/// `descriptor` numbered `floor` or higher, without the close-on-exec flag.
/// What comes back depends on the descriptors that the process holds:
/// nothing is claimed of it.
#[verifier::external_body]
fn duplicate_from(descriptor: i32, floor: i32) -> (outcome: Result<i32, nix::errno::Errno>) {
    nix::fcntl::fcntl(descriptor, nix::fcntl::FcntlArg::F_DUPFD(floor))
}

/// Whether `copy` can stand for `descriptor`: it lies outside the reserved
/// range, and it is another number, so that the one can be closed or given
/// away and the other stays.
pub open spec fn is_fresh_copy(descriptor: i32, copy: i32) -> bool {
    !is_reserved(copy) && copy != descriptor
}

/// Whether `copies` holds a fresh copy of each of `descriptors`, at the
/// same place.
pub open spec fn are_fresh_copies(descriptors: Seq<i32>, copies: Seq<i32>) -> bool {
    &&& copies.len() == descriptors.len()
    &&& forall|k: int|
        0 <= k < copies.len() ==> is_fresh_copy(descriptors[k], #[trigger] copies[k])
}

/// What a duplication that ended in `outcome` is worth: the new descriptor
/// if there is one and it is a fresh copy.
pub open spec fn accepted_duplicate(descriptor: i32, outcome: Result<i32, nix::errno::Errno>) -> Result<
    i32,
    ProtocolFault,
> {
    match outcome {
        Ok(copy) => if is_fresh_copy(descriptor, copy) {
            Ok(copy)
        } else {
            Err(ProtocolFault::Unduplicable { descriptor })
        },
        Err(_) => Err(ProtocolFault::Unduplicable { descriptor }),
    }
}

/// Judges the outcome of duplicating `descriptor`.
pub fn accept_duplicate(descriptor: i32, outcome: Result<i32, nix::errno::Errno>) -> (r: Result<
    i32,
    ProtocolFault,
>)
    ensures
        r == accepted_duplicate(descriptor, outcome),
{
    match outcome {
        Ok(copy) => {
            if copy < MIN_FD || copy == descriptor {
                Err(ProtocolFault::Unduplicable { descriptor })
            } else {
                Ok(copy)
            }
        },
        Err(_) => Err(ProtocolFault::Unduplicable { descriptor }),
    }
}

/// Duplicates a descriptor to a fresh number outside the reserved range,
/// without the close-on-exec flag, so that the copy survives into a
/// replaced program.
pub fn duplicate_fd(descriptor: i32) -> (r: Result<i32, ProtocolFault>)
    ensures
        match r {
            Ok(copy) => is_fresh_copy(descriptor, copy),
            Err(fault) => fault == (ProtocolFault::Unduplicable { descriptor }),
        },
{
    accept_duplicate(descriptor, duplicate_from(descriptor, MIN_FD))
}

/// Duplicates every descriptor of the list, in order, and stops at the
/// first that cannot be duplicated. The copies stand where their
/// descriptors stood.
pub fn duplicate_all(descriptors: &[i32]) -> (r: Result<Vec<i32>, ProtocolFault>)
    ensures
        match r {
            Ok(copies) => are_fresh_copies(descriptors@, copies@) && all_transferable(copies@),
            Err(fault) => exists|i: int|
                0 <= i < descriptors@.len() && fault == (ProtocolFault::Unduplicable {
                    descriptor: #[trigger] descriptors@[i],
                }),
        },
        descriptors@.len() == 0 ==> r is Ok,
{
    let mut copies: Vec<i32> = Vec::new();
    let mut i: usize = 0;
    while i < descriptors.len()
        invariant
            i <= descriptors.len(),
            copies@.len() == i,
            are_fresh_copies(descriptors@.take(i as int), copies@),
        decreases descriptors.len() - i,
    {
        match duplicate_fd(descriptors[i]) {
            Ok(copy) => {
                copies.push(copy);
            },
            Err(fault) => {
                return Err(fault);
            },
        }
        i = i + 1;
    }
    assert(descriptors@.take(i as int) =~= descriptors@);
    Ok(copies)
}

/// Takes the one descriptor of a message that carries exactly one.
pub fn receive_one(descriptors: &[i32]) -> (r: Result<i32, ProtocolFault>)
    ensures
        match r {
            Ok(copy) => descriptors@.len() == 1 && !is_reserved(descriptors@[0])
                && is_fresh_copy(descriptors@[0], copy),
            Err(fault) => if descriptors@.len() != 1 {
                fault == (ProtocolFault::DescriptorCount {
                    announced: 1,
                    received: descriptors@.len() as usize,
                })
            } else if is_reserved(descriptors@[0]) {
                fault == (ProtocolFault::ReservedDescriptor { descriptor: descriptors@[0] })
            } else {
                fault == (ProtocolFault::Unduplicable { descriptor: descriptors@[0] })
            },
        },
{
    if descriptors.len() != 1 {
        return Err(ProtocolFault::DescriptorCount { announced: 1, received: descriptors.len() });
    }
    let descriptor = descriptors[0];
    if descriptor < MIN_FD {
        return Err(ProtocolFault::ReservedDescriptor { descriptor });
    }
    duplicate_fd(descriptor)
}

} // verus!
