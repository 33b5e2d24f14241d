//! What can go wrong, by kind.

use vstd::prelude::*;

verus! {

/// Which of the two paths that must be free was found taken.
#[derive(Clone, Copy, Debug, PartialEq, Eq, Structural)]
pub enum Occupied {
    /// The directory under which the links are published.
    Parent,
    /// The marker.
    Marker,
}

/// What is wrong with the list of bindings.
#[derive(Clone, Copy, Debug, PartialEq, Eq, Structural)]
pub enum ConfigurationFault {
    /// The list could not be read.
    Unreadable,
    /// The list is not a list of bindings.
    Malformed,
    /// The source of the binding at this index could not be opened.
    SourceUnavailable { index: usize },
    /// There are not as many open files as bindings.
    DescriptorCount { bindings: usize, descriptors: usize },
    /// The target paths could not be put into a message. Every list of
    /// paths has a form on the wire, so this stands only for a refusal that
    /// the serializer never makes.
    Unserializable,
}

/// Which step on the socket failed.
#[derive(Clone, Copy, Debug, PartialEq, Eq, Structural)]
pub enum EndpointFault {
    Address,
    Bind,
    Connect,
    Accept,
    Credentials,
    Send,
    Receive,
}

/// How a message departs from the protocol.
#[derive(Clone, Copy, Debug, PartialEq, Eq, Structural)]
pub enum ProtocolFault {
    /// A length field did not arrive as one machine word.
    WordLength { received: usize },
    /// The number of descriptors that arrived is not the number announced.
    DescriptorCount { announced: usize, received: usize },
    /// The number of bytes that arrived is not the number announced.
    PayloadLength { announced: usize, received: usize },
    /// More bytes were sent than were announced.
    Truncated { announced: usize },
    /// The payload is no list of paths.
    MalformedTargets,
    /// There are not as many paths as descriptors.
    TargetCount { targets: usize, descriptors: usize },
    /// A descriptor lies in the range kept for the standard streams.
    ReservedDescriptor { descriptor: i32 },
    /// A descriptor could not be duplicated out of that range.
    Unduplicable { descriptor: i32 },
}

/// Which step of publishing failed.
#[derive(Clone, Copy, Debug, PartialEq, Eq, Structural)]
pub enum PublishFault {
    /// The target path at this index names the directory above.
    ParentReference { index: usize },
    /// The link at this index has no directory to stand in.
    NoDirectory { index: usize },
    /// The directory for the link at this index could not be created.
    CreateDirectory { index: usize },
    /// The link at this index could not be created.
    CreateLink { index: usize },
    /// The marker could not be created.
    CreateMarker,
    /// The marker could not be watched.
    Watch,
    /// The file for the output of the background process could not be set
    /// up.
    LogFile,
    /// The process could not be put into the background.
    Detach,
}

/// Every failure of the library, by kind.
#[derive(Clone, Copy, Debug, PartialEq, Eq, Structural)]
pub enum Error {
    /// The publish parent or the marker exists already.
    PreconditionViolation(Occupied),
    /// The list of bindings is unusable.
    ConfigurationError(ConfigurationFault),
    /// The socket could not be set up or used.
    EndpointError(EndpointFault),
    /// What arrived is not a message of the protocol.
    ProtocolViolation(ProtocolFault),
    /// The peer is not the user that is served.
    IdentityMismatch { peer_uid: u32 },
    /// A directory, a link or the marker could not be made.
    PublishError(PublishFault),
    /// The published tree could not be removed.
    TeardownError,
}

} // verus!
