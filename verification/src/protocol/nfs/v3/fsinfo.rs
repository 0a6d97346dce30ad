//! FSINFO: what does not change about the file system.

use crate::protocol::nfs::v3::{refusal_attr, refuse_attr, status_body};
use crate::protocol::rpc::{
    answers_call, handled, result_reply, send_result, Context, Outcome, RpcError,
};
use crate::protocol::xdr::nfs3::{fsinfo3, nfs_fh3, nfsstat3, post_op_attr};
use crate::vfs::{fsinfo_defaults, resolve_handle, served, NFSFileSystem, Served};
use vstd::prelude::*;

verus! {

/// The result of FSINFO: what the file system reports of itself, or the
/// status with which it refused.
pub open spec fn fsinfo_result(info: Result<fsinfo3, nfsstat3>) -> Seq<u8> {
    match info {
        Ok(i) => nfsstat3::wire(nfsstat3::NFS3_OK) + fsinfo3::wire(i),
        Err(stat) => nfsstat3::wire(stat),
    }
}

/// The result of FSINFO, from what `fsinfo` answered.
pub fn fsinfo_body(info: &Result<fsinfo3, nfsstat3>) -> (body: Vec<u8>)
    ensures
        body@ == fsinfo_result(*info),
{
    match info {
        Ok(i) => {
            let mut body = status_body(nfsstat3::NFS3_OK);
            i.serialize(&mut body);
            body
        },
        Err(stat) => status_body(*stat),
    }
}

/// What the file system said of its files while an FSINFO was handled.
pub struct FsinfoAnswers {
    /// What a file system with limits of its own reports of itself.
    pub info: Result<fsinfo3, nfsstat3>,
    /// The attributes of the object, which a file system without limits of
    /// its own reports beside the limits of the library.
    pub attr: post_op_attr,
}

/// What FSINFO does with a request. A handle that does not resolve is
/// answered with the status of that and no attributes; every other with
/// [`fsinfo_result`]. A file system without limits of its own reports
/// those of [`fsinfo_defaults`], and does not refuse.
pub open spec fn fsinfo_outcome(
    xid: u32,
    input: Seq<u8>,
    fs: Served,
    a: FsinfoAnswers,
) -> Outcome {
    match nfs_fh3::parse(input, 0) {
        None => Err(RpcError::Decode),
        Some((handle, _)) => match resolve_handle(fs.generation, handle) {
            Err(stat) => Ok(result_reply(xid, refusal_attr(stat))),
            Ok(_) => Ok(
                result_reply(
                    xid,
                    fsinfo_result(
                        if fs.own_limits {
                            a.info
                        } else {
                            Ok(fsinfo_defaults(a.attr))
                        },
                    ),
                ),
            ),
        },
    }
}

/// Handles an FSINFO call: resolves the handle, asks the file system what
/// it reports of itself, and replies what [`fsinfo_outcome`] gives.
pub fn nfsproc3_fsinfo<V: NFSFileSystem>(
    xid: u32,
    input: &[u8],
    output: &mut Vec<u8>,
    context: &Context<V>,
) -> (r: Result<(), RpcError>)
    ensures
        exists|a: FsinfoAnswers|
            handled(
                old(output)@,
                final(output)@,
                r,
                #[trigger] fsinfo_outcome(xid, input@, served(&context.vfs), a),
            ),
        match nfs_fh3::parse(input@, 0) {
            Some((handle, _)) => match resolve_handle(context.vfs.generation_of(), handle) {
                Err(stat) => final(output)@ == old(output)@ + result_reply(
                    xid,
                    refusal_attr(stat),
                ),
                Ok(_) => true,
            },
            None => true,
        },
        match nfs_fh3::parse(input@, 0) {
            Some((handle, _)) => (!context.vfs.own_limits() && resolve_handle(
                context.vfs.generation_of(),
                handle,
            ) is Ok) ==> exists|attr: post_op_attr|
                final(output)@ == old(output)@ + result_reply(
                    xid,
                    nfsstat3::wire(nfsstat3::NFS3_OK) + fsinfo3::wire(
                        #[trigger] fsinfo_defaults(attr),
                    ),
                ),
            None => true,
        },
        r is Err <==> nfs_fh3::parse(input@, 0) is None,
        r is Err ==> r == Err::<(), RpcError>(RpcError::Decode),
        r is Ok ==> answers_call(old(output)@, final(output)@, xid),
        r is Err ==> final(output)@ == old(output)@,
{
    let ghost fs = served(&context.vfs);
    let ghost mut a = FsinfoAnswers {
        info: Err(nfsstat3::NFS3_OK),
        attr: post_op_attr::Void,
    };
    let handle = match nfs_fh3::deserialize(input, 0) {
        Ok((handle, _)) => handle,
        Err(_) => {
            assert(handled(
                old(output)@,
                output@,
                Err::<(), RpcError>(RpcError::Decode),
                fsinfo_outcome(xid, input@, fs, a),
            ));
            return Err(RpcError::Decode);
        },
    };
    let body = match context.vfs.fh_to_id(&handle) {
        Err(stat) => refuse_attr(stat),
        Ok(id) => {
            let info = context.vfs.fsinfo(id);
            proof {
                a.info = info;
                a.attr = match info {
                    Ok(i) => i.obj_attributes,
                    Err(_) => post_op_attr::Void,
                };
            }
            fsinfo_body(&info)
        },
    };
    send_result(xid, &body, output);
    assert(handled(
        old(output)@,
        output@,
        Ok::<(), RpcError>(()),
        fsinfo_outcome(xid, input@, fs, a),
    ));
    Ok(())
}

} // verus!
