//! RENAME: move an entry to another name.

use crate::protocol::nfs::v3::{is_read_write, status, status_body, status_of, wcc, wcc_between};
use crate::protocol::rpc::{
    answers_call, handled, result_reply, send_result, Context, Outcome, RpcError,
};
use crate::protocol::xdr::nfs3::{fattr3, nfsstat3, wcc_data, RENAME3args};
use crate::vfs::{resolve_handle, served, Capabilities, NFSFileSystem, Served};
use vstd::prelude::*;

verus! {

/// The result of a RENAME that was refused before anything was moved:
/// the status, and no attributes of either directory.
pub open spec fn rename_refusal(stat: nfsstat3) -> Seq<u8> {
    nfsstat3::wire(stat) + wcc_data::wire(wcc_data::zero()) + wcc_data::wire(wcc_data::zero())
}

/// The result of a RENAME that was refused before anything was moved.
pub fn refuse_rename(stat: nfsstat3) -> (body: Vec<u8>)
    ensures
        body@ == rename_refusal(stat),
{
    let mut body = status_body(stat);
    wcc_data::default().serialize(&mut body);
    wcc_data::default().serialize(&mut body);
    body
}

/// The result of RENAME: the status of the attempt, and the attributes
/// of both directories on both sides of it.
pub open spec fn rename_result(
    stat: nfsstat3,
    from_before: Result<fattr3, nfsstat3>,
    from_after: Result<fattr3, nfsstat3>,
    to_before: Result<fattr3, nfsstat3>,
    to_after: Result<fattr3, nfsstat3>,
) -> Seq<u8> {
    nfsstat3::wire(stat) + wcc_data::wire(wcc_between(from_before, from_after)) + wcc_data::wire(
        wcc_between(to_before, to_after),
    )
}

/// The result of RENAME, from the status of the attempt and what
/// `getattr` answered of both directories before and after.
pub fn rename_body(
    stat: nfsstat3,
    from_before: &Result<fattr3, nfsstat3>,
    from_after: &Result<fattr3, nfsstat3>,
    to_before: &Result<fattr3, nfsstat3>,
    to_after: &Result<fattr3, nfsstat3>,
) -> (body: Vec<u8>)
    ensures
        body@ == rename_result(stat, *from_before, *from_after, *to_before, *to_after),
{
    let mut body = status_body(stat);
    wcc(from_before, from_after).serialize(&mut body);
    wcc(to_before, to_after).serialize(&mut body);
    body
}

/// What the file system said of its files while a RENAME was handled.
pub struct RenameAnswers {
    /// The attributes of the directory that holds the entry, before the
    /// attempt.
    pub from_before: Result<fattr3, nfsstat3>,
    /// The attributes of the directory that is to hold it, before the
    /// attempt.
    pub to_before: Result<fattr3, nfsstat3>,
    /// Whether the entry was moved.
    pub renamed: Result<(), nfsstat3>,
    /// The attributes of the first directory after the attempt.
    pub from_after: Result<fattr3, nfsstat3>,
    /// The attributes of the second directory after the attempt.
    pub to_after: Result<fattr3, nfsstat3>,
}

/// What RENAME does with a request. A read-only file system refuses
/// before the arguments are looked at, and nothing is moved where one of
/// the handles does not resolve. Every other request is answered with
/// [`rename_result`].
pub open spec fn rename_outcome(
    xid: u32,
    input: Seq<u8>,
    fs: Served,
    a: RenameAnswers,
) -> Outcome {
    if fs.caps != Capabilities::ReadWrite {
        Ok(result_reply(xid, rename_refusal(nfsstat3::NFS3ERR_ROFS)))
    } else {
        match RENAME3args::parse(input, 0) {
            None => Err(RpcError::Decode),
            Some((args, _)) => match resolve_handle(fs.generation, args.from.dir) {
                Err(stat) => Ok(result_reply(xid, rename_refusal(stat))),
                Ok(_) => match resolve_handle(fs.generation, args.to.dir) {
                    Err(stat) => Ok(result_reply(xid, rename_refusal(stat))),
                    Ok(_) => Ok(
                        result_reply(
                            xid,
                            rename_result(
                                status_of(a.renamed),
                                a.from_before,
                                a.from_after,
                                a.to_before,
                                a.to_after,
                            ),
                        ),
                    ),
                },
            },
        }
    }
}

/// Handles a RENAME call: resolves both handles, asks for the attributes
/// of both directories, moves the entry, asks for the attributes again,
/// and replies what [`rename_outcome`] gives.
pub fn nfsproc3_rename<V: NFSFileSystem>(
    xid: u32,
    input: &[u8],
    output: &mut Vec<u8>,
    context: &Context<V>,
) -> (r: Result<(), RpcError>)
    ensures
        exists|a: RenameAnswers|
            handled(
                old(output)@,
                final(output)@,
                r,
                #[trigger] rename_outcome(xid, input@, served(&context.vfs), a),
            ),
        context.vfs.caps_of() != Capabilities::ReadWrite ==> final(output)@ == old(output)@
            + result_reply(xid, rename_refusal(nfsstat3::NFS3ERR_ROFS)),
        context.vfs.caps_of() == Capabilities::ReadWrite ==> match RENAME3args::parse(input@, 0) {
            Some((args, _)) => match resolve_handle(context.vfs.generation_of(), args.from.dir) {
                Err(stat) => final(output)@ == old(output)@ + result_reply(
                    xid,
                    rename_refusal(stat),
                ),
                Ok(_) => match resolve_handle(context.vfs.generation_of(), args.to.dir) {
                    Err(stat) => final(output)@ == old(output)@ + result_reply(
                        xid,
                        rename_refusal(stat),
                    ),
                    Ok(_) => true,
                },
            },
            None => true,
        },
        r is Err <==> (context.vfs.caps_of() == Capabilities::ReadWrite
            && RENAME3args::parse(input@, 0) is None),
        r is Err ==> r == Err::<(), RpcError>(RpcError::Decode),
        r is Ok ==> answers_call(old(output)@, final(output)@, xid),
        r is Err ==> final(output)@ == old(output)@,
{
    let ghost fs = served(&context.vfs);
    let ghost mut a = RenameAnswers {
        from_before: Err(nfsstat3::NFS3_OK),
        to_before: Err(nfsstat3::NFS3_OK),
        renamed: Ok(()),
        from_after: Err(nfsstat3::NFS3_OK),
        to_after: Err(nfsstat3::NFS3_OK),
    };
    let caps = context.vfs.capabilities();
    if !is_read_write(caps) {
        let body = refuse_rename(nfsstat3::NFS3ERR_ROFS);
        send_result(xid, &body, output);
        assert(handled(
            old(output)@,
            output@,
            Ok::<(), RpcError>(()),
            rename_outcome(xid, input@, fs, a),
        ));
        return Ok(());
    }
    let args = match RENAME3args::deserialize(input, 0) {
        Ok((args, _)) => args,
        Err(_) => {
            assert(handled(
                old(output)@,
                output@,
                Err::<(), RpcError>(RpcError::Decode),
                rename_outcome(xid, input@, fs, a),
            ));
            return Err(RpcError::Decode);
        },
    };
    let body = match context.vfs.fh_to_id(&args.from.dir) {
        Err(stat) => refuse_rename(stat),
        Ok(from_id) => {
            match context.vfs.fh_to_id(&args.to.dir) {
                Err(stat) => refuse_rename(stat),
                Ok(to_id) => {
                    let from_before = context.vfs.getattr(from_id);
                    let to_before = context.vfs.getattr(to_id);
                    let renamed = context.vfs.rename(
                        from_id,
                        &args.from.name,
                        to_id,
                        &args.to.name,
                    );
                    let from_after = context.vfs.getattr(from_id);
                    let to_after = context.vfs.getattr(to_id);
                    proof {
                        a.from_before = from_before;
                        a.to_before = to_before;
                        a.renamed = renamed;
                        a.from_after = from_after;
                        a.to_after = to_after;
                    }
                    rename_body(status(&renamed), &from_before, &from_after, &to_before, &to_after)
                },
            }
        },
    };
    send_result(xid, &body, output);
    assert(handled(
        old(output)@,
        output@,
        Ok::<(), RpcError>(()),
        rename_outcome(xid, input@, fs, a),
    ));
    Ok(())
}

} // verus!
