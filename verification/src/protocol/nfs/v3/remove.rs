//! REMOVE and RMDIR: take an entry out of a directory.

use crate::protocol::nfs::v3::{
    change_body, change_result, is_read_write, refusal_wcc, refuse_wcc, status, status_of,
};
use crate::protocol::rpc::{
    answers_call, handled, result_reply, send_result, Context, Outcome, RpcError,
};
use crate::protocol::xdr::nfs3::{diropargs3, fattr3, nfsstat3};
use crate::vfs::{resolve_handle, served, Capabilities, NFSFileSystem, Served};
use vstd::prelude::*;

verus! {

/// What the file system said of its files while a REMOVE was handled.
pub struct RemoveAnswers {
    /// The attributes of the directory before the attempt.
    pub before: Result<fattr3, nfsstat3>,
    /// Whether the entry was removed.
    pub removed: Result<(), nfsstat3>,
    /// The attributes of the directory after the attempt.
    pub after: Result<fattr3, nfsstat3>,
}

/// What REMOVE does with a request. A read-only file system refuses
/// before the arguments are looked at, and a handle that does not resolve
/// is answered with the status of that. Otherwise the entry is removed,
/// and the reply holds the status of that and the attributes of the
/// directory on both sides of it, as [`change_result`] lays them out.
pub open spec fn remove_outcome(
    xid: u32,
    input: Seq<u8>,
    fs: Served,
    a: RemoveAnswers,
) -> Outcome {
    if fs.caps != Capabilities::ReadWrite {
        Ok(result_reply(xid, refusal_wcc(nfsstat3::NFS3ERR_ROFS)))
    } else {
        match diropargs3::parse(input, 0) {
            None => Err(RpcError::Decode),
            Some((args, _)) => match resolve_handle(fs.generation, args.dir) {
                Err(stat) => Ok(result_reply(xid, refusal_wcc(stat))),
                Ok(_) => Ok(
                    result_reply(xid, change_result(status_of(a.removed), a.before, a.after)),
                ),
            },
        }
    }
}

/// Handles a REMOVE call, and an RMDIR call alike: resolves the handle,
/// asks for the attributes of the directory, removes the entry, asks for
/// the attributes again, and replies what [`remove_outcome`] gives.
pub fn nfsproc3_remove<V: NFSFileSystem>(
    xid: u32,
    input: &[u8],
    output: &mut Vec<u8>,
    context: &Context<V>,
) -> (r: Result<(), RpcError>)
    ensures
        exists|a: RemoveAnswers|
            handled(
                old(output)@,
                final(output)@,
                r,
                #[trigger] remove_outcome(xid, input@, served(&context.vfs), a),
            ),
        context.vfs.caps_of() != Capabilities::ReadWrite ==> final(output)@ == old(output)@
            + result_reply(xid, refusal_wcc(nfsstat3::NFS3ERR_ROFS)),
        context.vfs.caps_of() == Capabilities::ReadWrite ==> match diropargs3::parse(input@, 0) {
            Some((args, _)) => match resolve_handle(context.vfs.generation_of(), args.dir) {
                Err(stat) => final(output)@ == old(output)@ + result_reply(
                    xid,
                    refusal_wcc(stat),
                ),
                Ok(_) => true,
            },
            None => true,
        },
        r is Err <==> (context.vfs.caps_of() == Capabilities::ReadWrite
            && diropargs3::parse(input@, 0) is None),
        r is Err ==> r == Err::<(), RpcError>(RpcError::Decode),
        r is Ok ==> answers_call(old(output)@, final(output)@, xid),
        r is Err ==> final(output)@ == old(output)@,
{
    let ghost fs = served(&context.vfs);
    let ghost mut a = RemoveAnswers {
        before: Err(nfsstat3::NFS3_OK),
        removed: Ok(()),
        after: Err(nfsstat3::NFS3_OK),
    };
    let caps = context.vfs.capabilities();
    if !is_read_write(caps) {
        let body = refuse_wcc(nfsstat3::NFS3ERR_ROFS);
        send_result(xid, &body, output);
        assert(handled(
            old(output)@,
            output@,
            Ok::<(), RpcError>(()),
            remove_outcome(xid, input@, fs, a),
        ));
        return Ok(());
    }
    let args = match diropargs3::deserialize(input, 0) {
        Ok((args, _)) => args,
        Err(_) => {
            assert(handled(
                old(output)@,
                output@,
                Err::<(), RpcError>(RpcError::Decode),
                remove_outcome(xid, input@, fs, a),
            ));
            return Err(RpcError::Decode);
        },
    };
    let body = match context.vfs.fh_to_id(&args.dir) {
        Err(stat) => refuse_wcc(stat),
        Ok(dirid) => {
            let before = context.vfs.getattr(dirid);
            let removed = context.vfs.remove(dirid, &args.name);
            let after = context.vfs.getattr(dirid);
            proof {
                a.before = before;
                a.removed = removed;
                a.after = after;
            }
            change_body(status(&removed), &before, &after)
        },
    };
    send_result(xid, &body, output);
    assert(handled(
        old(output)@,
        output@,
        Ok::<(), RpcError>(()),
        remove_outcome(xid, input@, fs, a),
    ));
    Ok(())
}

} // verus!
