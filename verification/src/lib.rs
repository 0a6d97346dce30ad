//! Core of an NFSv3 server: XDR wire types, ONC RPC record framing and
//! dispatch, the MOUNT, PORTMAP and NFSv3 procedure handlers, and the
//! file-system interface an embedder implements.
//!
//! The library works on byte buffers. Sockets, clocks and task scheduling
//! belong to the program around it.

pub mod protocol;
pub mod vfs;

pub use protocol::xdr;
