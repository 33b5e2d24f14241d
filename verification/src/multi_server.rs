//! The side that owns the open files: what it is configured with, the
//! message it serves, and whom it serves.
//!
//! Opening the files, listening and sending are outside work. What is
//! decided here is what is sent, and what becomes of each connection.

use crate::codec::TransferMessage;
use crate::error::{ConfigurationFault, EndpointFault, Error};
use vstd::prelude::*;

verus! {

/// One file to hand out: where it is opened, and the path under which the
/// receiving side publishes it.
#[derive(Debug)]
pub struct FileBinding {
    source_path: String,
    target_path: String,
}

impl FileBinding {
    /// The path of the file to open.
    pub closed spec fn source(&self) -> Seq<char> {
        self.source_path@
    }

    /// The path under which the file is published.
    pub closed spec fn target(&self) -> Seq<char> {
        self.target_path@
    }

    pub fn new(source_path: String, target_path: String) -> (binding: Self)
        ensures
            binding.source() == source_path@,
            binding.target() == target_path@,
    {
        Self { source_path, target_path }
    }

    /// Path to the source file (the file to serve).
    pub fn source_path(&self) -> (path: &str)
        ensures
            path@ == self.source(),
    {
        self.source_path.as_str()
    }

    /// Path under which the receiving side publishes the file.
    pub fn target_path(&self) -> (path: &str)
        ensures
            path@ == self.target(),
    {
        self.target_path.as_str()
    }
}

impl Clone for FileBinding {
    fn clone(&self) -> (copy: Self)
        ensures
            copy == *self,
    {
        Self { source_path: self.source_path.clone(), target_path: self.target_path.clone() }
    }
}

/// The files to hand out, in the order in which their descriptors are sent.
#[derive(Debug)]
pub struct MultiServerConf {
    file_bindings: Vec<FileBinding>,
}

impl MultiServerConf {
    /// The bindings, in order.
    pub closed spec fn bindings(&self) -> Seq<FileBinding> {
        self.file_bindings@
    }

    /// The target paths of the bindings, in order.
    pub open spec fn targets(&self) -> Seq<Seq<char>> {
        Seq::new(self.bindings().len(), |i: int| self.bindings()[i].target())
    }

    pub fn new(file_bindings: Vec<FileBinding>) -> (conf: Self)
        ensures
            conf.bindings() == file_bindings@,
    {
        Self { file_bindings }
    }

    pub fn file_bindings(&self) -> (bindings: &[FileBinding])
        ensures
            bindings@ == self.bindings(),
    {
        self.file_bindings.as_slice()
    }

    /// The target paths of the bindings, in order.
    pub fn target_paths(&self) -> (targets: Vec<String>)
        ensures
            targets.deep_view() == self.targets(),
    {
        let mut targets: Vec<String> = Vec::new();
        let mut i: usize = 0;
        while i < self.file_bindings.len()
            invariant
                i <= self.file_bindings.len(),
                targets@.len() == i,
                forall|k: int| 0 <= k < i ==> (#[trigger] targets@[k])@ == self.file_bindings@[k].target(),
            decreases self.file_bindings.len() - i,
        {
            targets.push(self.file_bindings[i].target_path().to_owned());
            i = i + 1;
        }
        targets
    }
}

impl Clone for MultiServerConf {
    fn clone(&self) -> (copy: Self)
        ensures
            copy.bindings() == self.bindings(),
    {
        let mut file_bindings: Vec<FileBinding> = Vec::new();
        let mut i: usize = 0;
        while i < self.file_bindings.len()
            invariant
                i <= self.file_bindings.len(),
                file_bindings@ == self.file_bindings@.take(i as int),
            decreases self.file_bindings.len() - i,
        {
            file_bindings.push(self.file_bindings[i].clone());
            i = i + 1;
        }
        Self { file_bindings }
    }
}

/// What the serving side is started with.
#[derive(Debug)]
pub struct MultiServerArgs {
    socket: String,
    client_uid: u32,
    config_path: String,
}

impl MultiServerArgs {
    /// The name of the socket to listen on.
    pub closed spec fn socket_name(&self) -> Seq<char> {
        self.socket@
    }

    /// The only user whose connections are served.
    pub closed spec fn expected_uid(&self) -> u32 {
        self.client_uid
    }

    /// Where the list of bindings is read from.
    pub closed spec fn config_file(&self) -> Seq<char> {
        self.config_path@
    }

    pub fn new(socket: String, client_uid: u32, config_path: String) -> (args: Self)
        ensures
            args.socket_name() == socket@,
            args.expected_uid() == client_uid,
            args.config_file() == config_path@,
    {
        Self { socket, client_uid, config_path }
    }

    /// Listen on this abstract socket.
    pub fn socket(&self) -> (name: &str)
        ensures
            name@ == self.socket_name(),
    {
        self.socket.as_str()
    }

    /// Expect clients with this UID.
    pub fn client_uid(&self) -> (uid: u32)
        ensures
            uid == self.expected_uid(),
    {
        self.client_uid
    }

    /// Read the bindings from this path.
    pub fn config_path(&self) -> (path: &str)
        ensures
            path@ == self.config_file(),
    {
        self.config_path.as_str()
    }

    /// The server that these arguments ask for, once the bindings have been
    /// read.
    pub fn server(&self, config: MultiServerConf) -> (server: MultiServer)
        ensures
            server.socket_name() == self.socket_name(),
            server.expected_uid() == self.expected_uid(),
            server.bindings() == config.bindings(),
    {
        MultiServer { socket: self.socket.clone(), client_uid: self.client_uid, config }
    }
}

impl Clone for MultiServerArgs {
    fn clone(&self) -> (copy: Self)
        ensures
            copy == *self,
    {
        Self {
            socket: self.socket.clone(),
            client_uid: self.client_uid,
            config_path: self.config_path.clone(),
        }
    }
}

/// A server for one list of bindings: it listens on one socket and serves
/// one user.
#[derive(Debug)]
pub struct MultiServer {
    socket: String,
    client_uid: u32,
    config: MultiServerConf,
}

impl MultiServer {
    /// The name of the socket to listen on.
    pub closed spec fn socket_name(&self) -> Seq<char> {
        self.socket@
    }

    /// The only user whose connections are served.
    pub closed spec fn expected_uid(&self) -> u32 {
        self.client_uid
    }

    /// The bindings, in order.
    pub closed spec fn bindings(&self) -> Seq<FileBinding> {
        self.config.bindings()
    }

    pub fn new(socket: &str, client_uid: u32, config: MultiServerConf) -> (r: Result<Self, Error>)
        ensures
            r matches Ok(server) && server.socket_name() == socket@ && server.expected_uid()
                == client_uid && server.bindings() == config.bindings(),
    {
        Ok(Self { socket: socket.to_owned(), client_uid, config })
    }

    /// The target paths of the bindings, in order.
    pub open spec fn targets(&self) -> Seq<Seq<char>> {
        Seq::new(self.bindings().len(), |i: int| self.bindings()[i].target())
    }

    /// What becomes of an attempt to accept a connection. A peer with the
    /// expected identity is served; any other peer is passed over, and the
    /// server goes on. Only a failure to accept, or to learn who the peer
    /// is, stops the server.
    pub open spec fn verdict(&self, accepted: Accepted) -> Verdict {
        match accepted {
            Accepted::Failed => Verdict::Stop(Error::EndpointError(EndpointFault::Accept)),
            Accepted::Unidentified => Verdict::Stop(
                Error::EndpointError(EndpointFault::Credentials),
            ),
            Accepted::Peer { euid } => if euid == self.expected_uid() {
                Verdict::Serve
            } else {
                Verdict::Ignore(Error::IdentityMismatch { peer_uid: euid })
            },
        }
    }

    /// Listen on this abstract socket.
    pub fn socket(&self) -> (name: &str)
        ensures
            name@ == self.socket_name(),
    {
        self.socket.as_str()
    }

    /// Expect clients with this UID.
    pub fn client_uid(&self) -> (uid: u32)
        ensures
            uid == self.expected_uid(),
    {
        self.client_uid
    }

    /// The bindings that are served.
    pub fn config(&self) -> (config: &MultiServerConf)
        ensures
            config.bindings() == self.bindings(),
    {
        &self.config
    }

    /// Builds the message that every client gets. `descriptors` holds the
    /// descriptor of the open source of each binding, in the order of the
    /// bindings. There is a message wherever there is a descriptor for each
    /// binding and no other.
    pub fn transfer_message(&self, descriptors: Vec<i32>) -> (r: Result<TransferMessage, Error>)
        ensures
            match r {
                Ok(message) => descriptors@.len() == self.bindings().len() && message.wf()
                    && message.targets() == self.targets() && message.descriptor_list()
                    == descriptors@,
                Err(error) => descriptors@.len() != self.bindings().len() && error
                    == Error::ConfigurationError(
                    ConfigurationFault::DescriptorCount {
                        bindings: self.bindings().len() as usize,
                        descriptors: descriptors@.len() as usize,
                    },
                ),
            },
    {
        let targets = self.config.target_paths();
        assert(targets.deep_view() =~= self.targets());
        match TransferMessage::build(targets, descriptors) {
            Ok(message) => Ok(message),
            Err(fault) => Err(Error::ConfigurationError(fault)),
        }
    }

    /// Whether a peer with this effective user id is served.
    pub fn admits(&self, peer_uid: u32) -> (served: bool)
        ensures
            served == (peer_uid == self.expected_uid()),
    {
        peer_uid == self.client_uid
    }

    /// Decides what becomes of an attempt to accept a connection.
    pub fn on_accept(&self, accepted: Accepted) -> (verdict: Verdict)
        ensures
            verdict == self.verdict(accepted),
    {
        match accepted {
            Accepted::Failed => Verdict::Stop(Error::EndpointError(EndpointFault::Accept)),
            Accepted::Unidentified => Verdict::Stop(
                Error::EndpointError(EndpointFault::Credentials),
            ),
            Accepted::Peer { euid } => {
                if self.admits(euid) {
                    Verdict::Serve
                } else {
                    Verdict::Ignore(Error::IdentityMismatch { peer_uid: euid })
                }
            },
        }
    }
}

impl Clone for MultiServer {
    fn clone(&self) -> (copy: Self)
        ensures
            copy.socket_name() == self.socket_name(),
            copy.expected_uid() == self.expected_uid(),
            copy.bindings() == self.bindings(),
    {
        Self {
            socket: self.socket.clone(),
            client_uid: self.client_uid,
            config: self.config.clone(),
        }
    }
}

/// How an attempt to accept a connection ended.
#[derive(Clone, Copy, Debug, PartialEq, Eq, Structural)]
pub enum Accepted {
    /// No connection was accepted.
    Failed,
    /// A connection was accepted, but the system did not say who the peer
    /// is.
    Unidentified,
    /// A connection was accepted from a peer with this effective user id.
    Peer { euid: u32 },
}

/// What the server does with a connection.
#[derive(Clone, Copy, Debug, PartialEq, Eq, Structural)]
pub enum Verdict {
    /// Send the message to the peer, apart from the loop, and go on
    /// accepting.
    Serve,
    /// Drop the connection for the reason given, and go on accepting.
    Ignore(Error),
    /// Stop serving with this failure.
    Stop(Error),
}

/// A peer with another identity than the expected one never stops the
/// server and is never served; a peer with the expected identity is
/// served, whatever came before.
pub proof fn lemma_identity_decides(server: MultiServer, euid: u32)
    ensures
        euid != server.expected_uid() ==> server.verdict(Accepted::Peer { euid })
            == Verdict::Ignore(Error::IdentityMismatch { peer_uid: euid }),
        euid == server.expected_uid() ==> server.verdict(Accepted::Peer { euid })
            == Verdict::Serve,
{
}

} // verus!
