//! The address at which the two sides meet: a name in the abstract
//! namespace of local sockets, which is no path and leaves nothing behind
//! in the file system.

use crate::error::{EndpointFault, Error};
use vstd::prelude::*;

verus! {

/// The address of a local socket.
#[verifier::external_type_specification]
#[verifier::external_body]
pub struct ExUnixSocketAddr(uds::UnixSocketAddr);

/// Why the system, or what stands for it, refused.
#[verifier::external_type_specification]
#[verifier::external_body]
pub struct ExIoError(std::io::Error);

/// `uds::UnixSocketAddr::from_abstract` on the bytes of `name`. Whether
/// there is an address for a name depends on the system, which may have no
/// abstract names at all, and on the longest name it takes: nothing is
/// claimed of the outcome.
#[verifier::external_body]
fn abstract_address(name: &str) -> (r: Result<uds::UnixSocketAddr, std::io::Error>) {
    uds::UnixSocketAddr::from_abstract(name.as_bytes())
}

/// The address for a name in the abstract namespace.
pub fn endpoint_address(name: &str) -> (r: Result<uds::UnixSocketAddr, Error>)
    ensures
        r matches Err(error) ==> error == Error::EndpointError(EndpointFault::Address),
{
    judge_address(abstract_address(name))
}

/// What an attempt to make an address is worth: the address that was made,
/// or the fault of an endpoint that has none.
pub open spec fn judged_address(outcome: Result<uds::UnixSocketAddr, std::io::Error>) -> Result<
    uds::UnixSocketAddr,
    Error,
> {
    match outcome {
        Ok(address) => Ok(address),
        Err(_) => Err(Error::EndpointError(EndpointFault::Address)),
    }
}

/// Judges the outcome of an attempt to make an address.
pub fn judge_address(outcome: Result<uds::UnixSocketAddr, std::io::Error>) -> (r: Result<
    uds::UnixSocketAddr,
    Error,
>)
    ensures
        r == judged_address(outcome),
{
    match outcome {
        Ok(address) => Ok(address),
        Err(_) => Err(Error::EndpointError(EndpointFault::Address)),
    }
}

} // verus!
