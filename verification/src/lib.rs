//! Handing open files from one process to others over a local socket, and
//! publishing them as links until a marker is removed.
//!
//! One process opens a list of files and serves their descriptors, with the
//! paths under which they are to appear, to every client of the expected
//! user. A client fetches them once, goes into the background, publishes
//! each as a link below a directory of its own, and says that it is ready
//! by creating a marker. Whoever uses the links removes the marker when it
//! is done; the client then removes the links and ends.
//!
//! The library holds what is decided along the way; sockets, files and
//! processes are left to the program that uses it.
//!
//! - [`path`], [`compare`] and [`path_proofs`]: paths as texts, and what
//!   becomes of their steps;
//! - [`wire`], [`encoding`] and [`codec`]: the message and its form on the
//!   wire;
//! - [`endpoint`] and [`multi_server`]: the serving side;
//! - [`descriptor`] and [`fetch`]: what a client accepts;
//! - [`multi_link`], [`publisher`], [`procfs`] and [`rendezvous`]: the run
//!   of a client, in the foreground and in the background;
//! - [`tools`]: tools in sealed files, linked by name;
//! - [`error`]: the failures, by kind.

pub mod codec;
pub mod compare;
pub mod descriptor;
pub mod encoding;
pub mod endpoint;
pub mod error;
pub mod fetch;
pub mod multi_link;
pub mod multi_server;
pub mod path;
pub mod path_proofs;
pub mod procfs;
pub mod publisher;
pub mod rendezvous;
pub mod tools;
pub mod wire;
