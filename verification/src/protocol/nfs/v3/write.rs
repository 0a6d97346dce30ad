//! WRITE: bytes into a file.

use crate::protocol::nfs::v3::{
    change_body, change_result, is_read_write, refusal_wcc, refuse_wcc, status, status_body, wcc,
    wcc_between,
};
use crate::protocol::rpc::{
    answers_call, handled, result_reply, send_message, send_result, Context, Outcome, RpcError,
};
use crate::protocol::xdr::{lemma_holds_at_concat, lemma_holds_at_self};
use crate::protocol::xdr::nfs3::{
    fattr3, nfsstat3, stable_how, WRITE3args, WRITE3resok, WRITE3resokView,
};
use crate::protocol::xdr::rpc::{
    accept_body, accepted_msg, garbage_args_reply_message, lemma_success_reply_len, rpc_msg,
    success_reply_wire,
};
use crate::vfs::{resolve_handle, served, u64_le_bytes, Capabilities, NFSFileSystem, Served};
use vstd::prelude::*;

verus! {

/// The result of WRITE. A write that succeeded is reported as stable
/// (`FILE_SYNC`), with the count that the client gave and the verifier
/// of the server. Either way the result holds the attributes of the
/// file on both sides of the write.
pub open spec fn write_result(
    count: u32,
    verf: Seq<u8>,
    before: Result<fattr3, nfsstat3>,
    written: Result<fattr3, nfsstat3>,
    after: Result<fattr3, nfsstat3>,
) -> Seq<u8> {
    match written {
        Ok(_) => nfsstat3::wire(nfsstat3::NFS3_OK) + WRITE3resok::wire(
            WRITE3resokView {
                file_wcc: wcc_between(before, after),
                count,
                committed: stable_how::FILE_SYNC,
                verf,
            },
        ),
        Err(stat) => change_result(stat, before, after),
    }
}

/// The result of WRITE, from what `getattr` answered before, `write`,
/// and `getattr` after.
pub fn write_body(
    count: u32,
    verf: [u8; 8],
    before: &Result<fattr3, nfsstat3>,
    written: &Result<fattr3, nfsstat3>,
    after: &Result<fattr3, nfsstat3>,
) -> (body: Vec<u8>)
    ensures
        body@ == write_result(count, verf@, *before, *written, *after),
{
    match written {
        Ok(_) => {
            let res = WRITE3resok {
                file_wcc: wcc(before, after),
                count,
                committed: stable_how::FILE_SYNC,
                verf,
            };
            let mut body = status_body(nfsstat3::NFS3_OK);
            res.serialize(&mut body);
            body
        },
        Err(stat) => change_body(*stat, before, after),
    }
}

/// What the file system said of its files while a WRITE was handled.
pub struct WriteAnswers {
    /// The attributes of the file before the attempt.
    pub before: Result<fattr3, nfsstat3>,
    /// The attributes that `write` returned.
    pub written: Result<fattr3, nfsstat3>,
    /// The attributes of the file after the attempt.
    pub after: Result<fattr3, nfsstat3>,
}

/// What WRITE does with a request. A read-only file system refuses before
/// the arguments are looked at. A count that is not the number of bytes
/// that came is answered with `GARBAGE_ARGS`, and a handle that does not
/// resolve with the status of that; in neither case is anything written.
/// Every other request is answered with [`write_result`], with the
/// generation as the verifier.
pub open spec fn write_outcome(
    xid: u32,
    input: Seq<u8>,
    fs: Served,
    a: WriteAnswers,
) -> Outcome {
    if fs.caps != Capabilities::ReadWrite {
        Ok(result_reply(xid, refusal_wcc(nfsstat3::NFS3ERR_ROFS)))
    } else {
        match WRITE3args::parse(input, 0) {
            None => Err(RpcError::Decode),
            Some((args, _)) => if args.data.len() != args.count {
                Ok(rpc_msg::wire(accepted_msg(xid, accept_body::GARBAGE_ARGS)))
            } else {
                match resolve_handle(fs.generation, args.file) {
                    Err(stat) => Ok(result_reply(xid, refusal_wcc(stat))),
                    Ok(_) => Ok(
                        result_reply(
                            xid,
                            write_result(
                                args.count,
                                u64_le_bytes(fs.generation),
                                a.before,
                                a.written,
                                a.after,
                            ),
                        ),
                    ),
                }
            },
        }
    }
}

/// Handles a WRITE call: resolves the handle, asks for the attributes of
/// the file, writes the bytes, asks for the attributes again, and replies
/// what [`write_outcome`] gives.
pub fn nfsproc3_write<V: NFSFileSystem>(
    xid: u32,
    input: &[u8],
    output: &mut Vec<u8>,
    context: &Context<V>,
) -> (r: Result<(), RpcError>)
    ensures
        exists|a: WriteAnswers|
            handled(
                old(output)@,
                final(output)@,
                r,
                #[trigger] write_outcome(xid, input@, served(&context.vfs), a),
            ),
        context.vfs.caps_of() != Capabilities::ReadWrite ==> final(output)@ == old(output)@
            + result_reply(xid, refusal_wcc(nfsstat3::NFS3ERR_ROFS)),
        context.vfs.caps_of() == Capabilities::ReadWrite ==> match WRITE3args::parse(input@, 0) {
            Some((args, _)) => if args.data.len() != args.count {
                final(output)@ == old(output)@ + rpc_msg::wire(
                    accepted_msg(xid, accept_body::GARBAGE_ARGS),
                )
            } else {
                match resolve_handle(context.vfs.generation_of(), args.file) {
                    Err(stat) => final(output)@ == old(output)@ + result_reply(
                        xid,
                        refusal_wcc(stat),
                    ),
                    Ok(_) => true,
                }
            },
            None => true,
        },
        r is Err <==> (context.vfs.caps_of() == Capabilities::ReadWrite
            && WRITE3args::parse(input@, 0) is None),
        r is Err ==> r == Err::<(), RpcError>(RpcError::Decode),
        r is Ok ==> answers_call(old(output)@, final(output)@, xid),
        r is Err ==> final(output)@ == old(output)@,
{
    let ghost fs = served(&context.vfs);
    let ghost mut a = WriteAnswers {
        before: Err(nfsstat3::NFS3_OK),
        written: Err(nfsstat3::NFS3_OK),
        after: Err(nfsstat3::NFS3_OK),
    };
    let caps = context.vfs.capabilities();
    if !is_read_write(caps) {
        let body = refuse_wcc(nfsstat3::NFS3ERR_ROFS);
        send_result(xid, &body, output);
        assert(handled(
            old(output)@,
            output@,
            Ok::<(), RpcError>(()),
            write_outcome(xid, input@, fs, a),
        ));
        return Ok(());
    }
    let args = match WRITE3args::deserialize(input, 0) {
        Ok((args, _)) => args,
        Err(_) => {
            assert(handled(
                old(output)@,
                output@,
                Err::<(), RpcError>(RpcError::Decode),
                write_outcome(xid, input@, fs, a),
            ));
            return Err(RpcError::Decode);
        },
    };
    if args.data.len() != args.count as usize {
        send_message(&garbage_args_reply_message(xid), output);
        assert(handled(
            old(output)@,
            output@,
            Ok::<(), RpcError>(()),
            write_outcome(xid, input@, fs, a),
        ));
        return Ok(());
    }
    let body = match context.vfs.fh_to_id(&args.file) {
        Err(stat) => refuse_wcc(stat),
        Ok(id) => {
            let before = context.vfs.getattr(id);
            let written = context.vfs.write(id, args.offset, args.data.as_slice());
            let after = context.vfs.getattr(id);
            proof {
                a.before = before;
                a.written = written;
                a.after = after;
            }
            write_body(args.count, context.vfs.serverid(), &before, &written, &after)
        },
    };
    send_result(xid, &body, output);
    assert(handled(
        old(output)@,
        output@,
        Ok::<(), RpcError>(()),
        write_outcome(xid, input@, fs, a),
    ));
    Ok(())
}

/// A reply to a WRITE that succeeded decodes to the attributes of the
/// file on both sides of the write, the count, `FILE_SYNC` and the
/// verifier.
pub proof fn lemma_write_reports_both_sides(
    xid: u32,
    count: u32,
    verf: Seq<u8>,
    before: Result<fattr3, nfsstat3>,
    written: fattr3,
    after: Result<fattr3, nfsstat3>,
)
    requires
        verf.len() == 8,
    ensures
        ({
            let res = WRITE3resokView {
                file_wcc: wcc_between(before, after),
                count,
                committed: stable_how::FILE_SYNC,
                verf,
            };
            let reply = result_reply(xid, write_result(count, verf, before, Ok(written), after));
            &&& nfsstat3::parse(reply, 24) == Some((nfsstat3::NFS3_OK, 28int))
            &&& WRITE3resok::parse(reply, 28) == Some((res, reply.len() as int))
        }),
{
    let res = WRITE3resokView {
        file_wcc: wcc_between(before, after),
        count,
        committed: stable_how::FILE_SYNC,
        verf,
    };
    let status = nfsstat3::wire(nfsstat3::NFS3_OK);
    let reply = result_reply(xid, status + WRITE3resok::wire(res));
    lemma_success_reply_len(xid);
    lemma_holds_at_self(reply);
    lemma_holds_at_concat(reply, 0, success_reply_wire(xid), status + WRITE3resok::wire(res));
    lemma_holds_at_concat(reply, 24, status, WRITE3resok::wire(res));
    nfsstat3::lemma_roundtrip(nfsstat3::NFS3_OK, reply, 24);
    WRITE3resok::lemma_roundtrip(res, reply, 28);
}

} // verus!
