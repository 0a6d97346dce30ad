//! FSSTAT: how full the file system is.

use crate::protocol::nfs::v3::{refusal_attr, refuse_attr, status_body};
use crate::protocol::rpc::{
    answers_call, handled, result_reply, send_result, Context, Outcome, RpcError,
};
use crate::protocol::xdr::nfs3::{fattr3, nfs_fh3, nfsstat3, post_op_attr, FSSTAT3resok};
use crate::vfs::{post_op, post_op_of, resolve_handle, served, NFSFileSystem, Served};
use vstd::prelude::*;

verus! {

/// What is reported of every file system: 1 TiB in all, all of it free
/// and available, room for 2^30 files, all of them free and available,
/// and no promise that this stays so.
pub open spec fn fsstat_defaults(obj_attributes: post_op_attr) -> FSSTAT3resok {
    FSSTAT3resok {
        obj_attributes,
        tbytes: 0x100_0000_0000,
        fbytes: 0x100_0000_0000,
        abytes: 0x100_0000_0000,
        tfiles: 0x4000_0000,
        ffiles: 0x4000_0000,
        afiles: 0x4000_0000,
        invarsec: 0xffff_ffff,
    }
}

/// What is reported of every file system.
pub fn default_fsstat(obj_attributes: post_op_attr) -> (r: FSSTAT3resok)
    ensures
        r == fsstat_defaults(obj_attributes),
{
    FSSTAT3resok {
        obj_attributes,
        tbytes: 1024 * 1024 * 1024 * 1024,
        fbytes: 1024 * 1024 * 1024 * 1024,
        abytes: 1024 * 1024 * 1024 * 1024,
        tfiles: 1024 * 1024 * 1024,
        ffiles: 1024 * 1024 * 1024,
        afiles: 1024 * 1024 * 1024,
        invarsec: u32::MAX,
    }
}

/// The result of FSSTAT: [`fsstat_defaults`], with the attributes of the object
/// where they can be had.
pub open spec fn fsstat_result(attr: Result<fattr3, nfsstat3>) -> Seq<u8> {
    nfsstat3::wire(nfsstat3::NFS3_OK) + FSSTAT3resok::wire(fsstat_defaults(post_op_of(attr)))
}

/// The result of FSSTAT, from what `getattr` answered.
pub fn fsstat_body(attr: &Result<fattr3, nfsstat3>) -> (body: Vec<u8>)
    ensures
        body@ == fsstat_result(*attr),
{
    let mut body = status_body(nfsstat3::NFS3_OK);
    default_fsstat(post_op(attr)).serialize(&mut body);
    body
}

/// What the file system said of its files while an FSSTAT was handled.
pub struct FsstatAnswers {
    /// The attributes of the object.
    pub attr: Result<fattr3, nfsstat3>,
}

/// What FSSTAT does with a request. A handle that does not resolve is
/// answered with the status of that and no attributes; every other with
/// [`fsstat_result`].
pub open spec fn fsstat_outcome(
    xid: u32,
    input: Seq<u8>,
    fs: Served,
    a: FsstatAnswers,
) -> Outcome {
    match nfs_fh3::parse(input, 0) {
        None => Err(RpcError::Decode),
        Some((handle, _)) => match resolve_handle(fs.generation, handle) {
            Err(stat) => Ok(result_reply(xid, refusal_attr(stat))),
            Ok(_) => Ok(result_reply(xid, fsstat_result(a.attr))),
        },
    }
}

/// Handles an FSSTAT call: resolves the handle, asks for the attributes
/// of the object, and replies what [`fsstat_outcome`] gives.
pub fn nfsproc3_fsstat<V: NFSFileSystem>(
    xid: u32,
    input: &[u8],
    output: &mut Vec<u8>,
    context: &Context<V>,
) -> (r: Result<(), RpcError>)
    ensures
        exists|a: FsstatAnswers|
            handled(
                old(output)@,
                final(output)@,
                r,
                #[trigger] fsstat_outcome(xid, input@, served(&context.vfs), a),
            ),
        match nfs_fh3::parse(input@, 0) {
            Some((handle, _)) => match resolve_handle(context.vfs.generation_of(), handle) {
                Err(stat) => final(output)@ == old(output)@ + result_reply(
                    xid,
                    refusal_attr(stat),
                ),
                Ok(_) => true,
            },
            None => true,
        },
        r is Err <==> nfs_fh3::parse(input@, 0) is None,
        r is Err ==> r == Err::<(), RpcError>(RpcError::Decode),
        r is Ok ==> answers_call(old(output)@, final(output)@, xid),
        r is Err ==> final(output)@ == old(output)@,
{
    let ghost fs = served(&context.vfs);
    let ghost mut a = FsstatAnswers {
        attr: Err(nfsstat3::NFS3_OK),
    };
    let handle = match nfs_fh3::deserialize(input, 0) {
        Ok((handle, _)) => handle,
        Err(_) => {
            assert(handled(
                old(output)@,
                output@,
                Err::<(), RpcError>(RpcError::Decode),
                fsstat_outcome(xid, input@, fs, a),
            ));
            return Err(RpcError::Decode);
        },
    };
    let body = match context.vfs.fh_to_id(&handle) {
        Err(stat) => refuse_attr(stat),
        Ok(id) => {
            let attr = context.vfs.getattr(id);
            proof {
                a.attr = attr;
            }
            fsstat_body(&attr)
        },
    };
    send_result(xid, &body, output);
    assert(handled(
        old(output)@,
        output@,
        Ok::<(), RpcError>(()),
        fsstat_outcome(xid, input@, fs, a),
    ));
    Ok(())
}

} // verus!
