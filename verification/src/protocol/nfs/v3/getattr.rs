//! GETATTR: the attributes of a file.

use crate::protocol::nfs::v3::status_body;
use crate::protocol::rpc::{
    answers_call, handled, result_reply, send_result, Context, Outcome, RpcError,
};
use crate::protocol::xdr::nfs3::{fattr3, nfs_fh3, nfsstat3};
use crate::vfs::{resolve_handle, served, NFSFileSystem, Served};
use vstd::prelude::*;

verus! {

/// The result of GETATTR: the attributes of the file, or the status
/// with which the file system refused them.
pub open spec fn getattr_result(attr: Result<fattr3, nfsstat3>) -> Seq<u8> {
    match attr {
        Ok(a) => nfsstat3::wire(nfsstat3::NFS3_OK) + fattr3::wire(a),
        Err(stat) => nfsstat3::wire(stat),
    }
}

/// The result of GETATTR, from what `getattr` answered.
pub fn getattr_body(attr: &Result<fattr3, nfsstat3>) -> (body: Vec<u8>)
    ensures
        body@ == getattr_result(*attr),
{
    match attr {
        Ok(a) => {
            let mut body = status_body(nfsstat3::NFS3_OK);
            a.serialize(&mut body);
            body
        },
        Err(stat) => status_body(*stat),
    }
}

/// What the file system said of its files while a GETATTR was handled.
pub struct GetattrAnswers {
    /// The attributes of the file.
    pub attr: Result<fattr3, nfsstat3>,
}

/// What GETATTR does with a request. A handle that does not resolve is
/// answered with the status of that; every other with [`getattr_result`].
pub open spec fn getattr_outcome(
    xid: u32,
    input: Seq<u8>,
    fs: Served,
    a: GetattrAnswers,
) -> Outcome {
    match nfs_fh3::parse(input, 0) {
        None => Err(RpcError::Decode),
        Some((handle, _)) => match resolve_handle(fs.generation, handle) {
            Err(stat) => Ok(result_reply(xid, nfsstat3::wire(stat))),
            Ok(_) => Ok(result_reply(xid, getattr_result(a.attr))),
        },
    }
}

/// Handles a GETATTR call: resolves the handle, asks for the attributes
/// of the file, and replies what [`getattr_outcome`] gives.
pub fn nfsproc3_getattr<V: NFSFileSystem>(
    xid: u32,
    input: &[u8],
    output: &mut Vec<u8>,
    context: &Context<V>,
) -> (r: Result<(), RpcError>)
    ensures
        exists|a: GetattrAnswers|
            handled(
                old(output)@,
                final(output)@,
                r,
                #[trigger] getattr_outcome(xid, input@, served(&context.vfs), a),
            ),
        match nfs_fh3::parse(input@, 0) {
            Some((handle, _)) => match resolve_handle(context.vfs.generation_of(), handle) {
                Err(stat) => final(output)@ == old(output)@ + result_reply(
                    xid,
                    nfsstat3::wire(stat),
                ),
                Ok(_) => true,
            },
            None => true,
        },
        r is Err <==> nfs_fh3::parse(input@, 0) is None,
        r is Err ==> r == Err::<(), RpcError>(RpcError::Decode),
        r is Ok ==> answers_call(old(output)@, final(output)@, xid),
        r is Err ==> final(output)@ == old(output)@,
{
    let ghost fs = served(&context.vfs);
    let ghost mut a = GetattrAnswers {
        attr: Err(nfsstat3::NFS3_OK),
    };
    let handle = match nfs_fh3::deserialize(input, 0) {
        Ok((handle, _)) => handle,
        Err(_) => {
            assert(handled(
                old(output)@,
                output@,
                Err::<(), RpcError>(RpcError::Decode),
                getattr_outcome(xid, input@, fs, a),
            ));
            return Err(RpcError::Decode);
        },
    };
    let body = match context.vfs.fh_to_id(&handle) {
        Err(stat) => status_body(stat),
        Ok(id) => {
            let attr = context.vfs.getattr(id);
            proof {
                a.attr = attr;
            }
            getattr_body(&attr)
        },
    };
    send_result(xid, &body, output);
    assert(handled(
        old(output)@,
        output@,
        Ok::<(), RpcError>(()),
        getattr_outcome(xid, input@, fs, a),
    ));
    Ok(())
}

} // verus!
