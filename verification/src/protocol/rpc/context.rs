//! The state of a connection, as the procedure handlers see it.

use crate::protocol::xdr::rpc::auth_unix;
use crate::vfs::NFSFileSystem;
use vstd::prelude::*;

verus! {

/// What the handlers of a connection share. It is set up once, when the
/// connection is accepted; only `auth` follows the credentials of the
/// request in hand.
///
/// Two things that belong to a connection are not in here. The tracker
/// of repeated requests is shared between connections, and goes to the
/// dispatcher by itself. The channel on which to tell of mounts stays
/// with whoever owns the connection: the handlers hand back what to
/// tell.
pub struct Context<V: NFSFileSystem> {
    /// The port on which the server listens, which the port mapper
    /// reports for every program.
    pub local_port: u16,
    /// The address of the client.
    pub client_addr: String,
    /// The credentials of the request in hand.
    pub auth: auth_unix,
    /// The file system that is served.
    pub vfs: V,
    /// The path under which the file system is exported.
    pub export_name: String,
}

} // verus!
