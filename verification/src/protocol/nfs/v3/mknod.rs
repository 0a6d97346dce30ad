//! MKNOD: make a special file.

use crate::protocol::nfs::v3::{
    is_read_write, made_body, made_result, refusal_wcc, refuse_wcc, with_handle,
};
use crate::protocol::rpc::{
    answers_call, handled, result_reply, send_result, Context, Outcome, RpcError,
};
use crate::protocol::xdr::nfs3::{fattr3, fileid3, nfsstat3, post_op_attr, sattr3, MKNOD3args};
use crate::vfs::{resolve_handle, served, Capabilities, NFSFileSystem, Served};
use vstd::prelude::*;

verus! {

/// What the file system said of its files while a MKNOD was handled.
pub struct MknodAnswers {
    /// The attributes of the directory before the attempt.
    pub before: Result<fattr3, nfsstat3>,
    /// The id and the attributes of what was made.
    pub made: Result<(fileid3, fattr3), nfsstat3>,
    /// The attributes of the directory after the attempt.
    pub after: Result<fattr3, nfsstat3>,
}

/// What MKNOD does with a request. A read-only file system refuses before
/// the arguments are looked at, and a handle that does not resolve is
/// answered with the status of that. Otherwise the reply is what
/// [`made_result`] lays out: the status of the attempt and the attributes
/// of the directory on both sides of it, and for what was made the handle
/// of its id and its attributes. The file is made with the type and the
/// device numbers that the client names, and with no attributes set.
pub open spec fn mknod_outcome(
    xid: u32,
    input: Seq<u8>,
    fs: Served,
    a: MknodAnswers,
) -> Outcome {
    if fs.caps != Capabilities::ReadWrite {
        Ok(result_reply(xid, refusal_wcc(nfsstat3::NFS3ERR_ROFS)))
    } else {
        match MKNOD3args::parse(input, 0) {
            None => Err(RpcError::Decode),
            Some((args, _)) => match resolve_handle(fs.generation, args.where_dir.dir) {
                Err(stat) => Ok(result_reply(xid, refusal_wcc(stat))),
                Ok(_) => Ok(
                    result_reply(
                        xid,
                        made_result(
                            with_handle(
                                fs.generation,
                                match a.made {
                                    Ok((id, attr)) => Ok((id, post_op_attr::attributes(attr))),
                                    Err(stat) => Err(stat),
                                },
                            ),
                            a.before,
                            a.after,
                        ),
                    ),
                ),
            },
        }
    }
}

/// Handles a MKNOD call: resolves the handle, asks for the attributes of
/// the directory, makes a special file in it, asks for the attributes
/// again, and replies what [`mknod_outcome`] gives.
pub fn nfsproc3_mknod<V: NFSFileSystem>(
    xid: u32,
    input: &[u8],
    output: &mut Vec<u8>,
    context: &Context<V>,
) -> (r: Result<(), RpcError>)
    ensures
        exists|a: MknodAnswers|
            handled(
                old(output)@,
                final(output)@,
                r,
                #[trigger] mknod_outcome(xid, input@, served(&context.vfs), a),
            ),
        context.vfs.caps_of() != Capabilities::ReadWrite ==> final(output)@ == old(output)@
            + result_reply(xid, refusal_wcc(nfsstat3::NFS3ERR_ROFS)),
        context.vfs.caps_of() == Capabilities::ReadWrite ==> match MKNOD3args::parse(input@, 0) {
            Some((args, _)) => match resolve_handle(
                context.vfs.generation_of(),
                args.where_dir.dir,
            ) {
                Err(stat) => final(output)@ == old(output)@ + result_reply(
                    xid,
                    refusal_wcc(stat),
                ),
                Ok(_) => true,
            },
            None => true,
        },
        r is Err <==> (context.vfs.caps_of() == Capabilities::ReadWrite
            && MKNOD3args::parse(input@, 0) is None),
        r is Err ==> r == Err::<(), RpcError>(RpcError::Decode),
        r is Ok ==> answers_call(old(output)@, final(output)@, xid),
        r is Err ==> final(output)@ == old(output)@,
{
    let ghost fs = served(&context.vfs);
    let ghost mut a = MknodAnswers {
        before: Err(nfsstat3::NFS3_OK),
        made: Err(nfsstat3::NFS3_OK),
        after: Err(nfsstat3::NFS3_OK),
    };
    let caps = context.vfs.capabilities();
    if !is_read_write(caps) {
        let body = refuse_wcc(nfsstat3::NFS3ERR_ROFS);
        send_result(xid, &body, output);
        assert(handled(
            old(output)@,
            output@,
            Ok::<(), RpcError>(()),
            mknod_outcome(xid, input@, fs, a),
        ));
        return Ok(());
    }
    let args = match MKNOD3args::deserialize(input, 0) {
        Ok((args, _)) => args,
        Err(_) => {
            assert(handled(
                old(output)@,
                output@,
                Err::<(), RpcError>(RpcError::Decode),
                mknod_outcome(xid, input@, fs, a),
            ));
            return Err(RpcError::Decode);
        },
    };
    let body = match context.vfs.fh_to_id(&args.where_dir.dir) {
        Err(stat) => refuse_wcc(stat),
        Ok(dirid) => {
            let before = context.vfs.getattr(dirid);
            let made = context.vfs.mknod(
                dirid,
                &args.where_dir.name,
                args.what.mknod_type,
                args.what.device.device,
                &sattr3::default(),
            );
            let after = context.vfs.getattr(dirid);
            proof {
                a.before = before;
                a.made = made;
                a.after = after;
            }
            let made = match made {
                Ok((id, attr)) => {
                    let handle = context.vfs.id_to_fh(id);
                    Ok((handle, post_op_attr::attributes(attr)))
                },
                Err(stat) => Err(stat),
            };
            made_body(made, &before, &after)
        },
    };
    send_result(xid, &body, output);
    assert(handled(
        old(output)@,
        output@,
        Ok::<(), RpcError>(()),
        mknod_outcome(xid, input@, fs, a),
    ));
    Ok(())
}

} // verus!
