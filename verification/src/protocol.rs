//! Wire formats and protocol handlers.

pub mod nfs;
pub mod rpc;
pub mod xdr;
