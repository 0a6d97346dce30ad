//! COMMIT: bring written data to stable storage.

use crate::protocol::nfs::v3::{
    change_body, change_result, refusal_wcc, refuse_wcc, status, status_body, wcc, wcc_between,
};
use crate::protocol::rpc::{
    answers_call, handled, result_reply, send_result, Context, Outcome, RpcError,
};
use crate::protocol::xdr::{lemma_holds_at_concat, lemma_holds_at_self};
use crate::protocol::xdr::nfs3::{fattr3, nfsstat3, COMMIT3args, COMMIT3resok, COMMIT3resokView};
use crate::protocol::xdr::rpc::{lemma_success_reply_len, success_reply_wire};
use crate::vfs::{resolve_handle, served, u64_le_bytes, NFSFileSystem, Served};
use vstd::prelude::*;

verus! {

/// The result of COMMIT. A commit that succeeded is reported with the
/// verifier of the server, the same that WRITE reports. Either way the
/// result holds the attributes of the file on both sides of the commit.
pub open spec fn commit_result(
    verf: Seq<u8>,
    before: Result<fattr3, nfsstat3>,
    committed: Result<fattr3, nfsstat3>,
    after: Result<fattr3, nfsstat3>,
) -> Seq<u8> {
    match committed {
        Ok(_) => nfsstat3::wire(nfsstat3::NFS3_OK) + COMMIT3resok::wire(
            COMMIT3resokView { file_wcc: wcc_between(before, after), verf },
        ),
        Err(stat) => change_result(stat, before, after),
    }
}

/// The result of COMMIT, from what `getattr` answered before, `commit`,
/// and `getattr` after.
pub fn commit_body(
    verf: [u8; 8],
    before: &Result<fattr3, nfsstat3>,
    committed: &Result<fattr3, nfsstat3>,
    after: &Result<fattr3, nfsstat3>,
) -> (body: Vec<u8>)
    ensures
        body@ == commit_result(verf@, *before, *committed, *after),
{
    match committed {
        Ok(_) => {
            let res = COMMIT3resok { file_wcc: wcc(before, after), verf };
            let mut body = status_body(nfsstat3::NFS3_OK);
            res.serialize(&mut body);
            body
        },
        Err(stat) => change_body(*stat, before, after),
    }
}

/// What the file system said of its files while a COMMIT was handled.
pub struct CommitAnswers {
    /// The attributes of the file before the attempt.
    pub before: Result<fattr3, nfsstat3>,
    /// The attributes that `commit` returned.
    pub committed: Result<fattr3, nfsstat3>,
    /// The attributes of the file after the attempt.
    pub after: Result<fattr3, nfsstat3>,
}

/// What COMMIT does with a request. A handle that does not resolve is
/// answered with the status of that and no attributes; every other with
/// [`commit_result`], with the generation as the verifier.
pub open spec fn commit_outcome(
    xid: u32,
    input: Seq<u8>,
    fs: Served,
    a: CommitAnswers,
) -> Outcome {
    match COMMIT3args::parse(input, 0) {
        None => Err(RpcError::Decode),
        Some((args, _)) => match resolve_handle(fs.generation, args.file) {
            Err(stat) => Ok(result_reply(xid, refusal_wcc(stat))),
            Ok(_) => Ok(
                result_reply(
                    xid,
                    commit_result(u64_le_bytes(fs.generation), a.before, a.committed, a.after),
                ),
            ),
        },
    }
}

/// Handles a COMMIT call: resolves the handle, asks for the attributes of
/// the file, commits the range that the client names, asks for the
/// attributes again, and replies what [`commit_outcome`] gives.
pub fn nfsproc3_commit<V: NFSFileSystem>(
    xid: u32,
    input: &[u8],
    output: &mut Vec<u8>,
    context: &Context<V>,
) -> (r: Result<(), RpcError>)
    ensures
        exists|a: CommitAnswers|
            handled(
                old(output)@,
                final(output)@,
                r,
                #[trigger] commit_outcome(xid, input@, served(&context.vfs), a),
            ),
        match COMMIT3args::parse(input@, 0) {
            Some((args, _)) => match resolve_handle(context.vfs.generation_of(), args.file) {
                Err(stat) => final(output)@ == old(output)@ + result_reply(
                    xid,
                    refusal_wcc(stat),
                ),
                Ok(_) => true,
            },
            None => true,
        },
        r is Err <==> COMMIT3args::parse(input@, 0) is None,
        r is Err ==> r == Err::<(), RpcError>(RpcError::Decode),
        r is Ok ==> answers_call(old(output)@, final(output)@, xid),
        r is Err ==> final(output)@ == old(output)@,
{
    let ghost fs = served(&context.vfs);
    let ghost mut a = CommitAnswers {
        before: Err(nfsstat3::NFS3_OK),
        committed: Err(nfsstat3::NFS3_OK),
        after: Err(nfsstat3::NFS3_OK),
    };
    let args = match COMMIT3args::deserialize(input, 0) {
        Ok((args, _)) => args,
        Err(_) => {
            assert(handled(
                old(output)@,
                output@,
                Err::<(), RpcError>(RpcError::Decode),
                commit_outcome(xid, input@, fs, a),
            ));
            return Err(RpcError::Decode);
        },
    };
    let body = match context.vfs.fh_to_id(&args.file) {
        Err(stat) => refuse_wcc(stat),
        Ok(id) => {
            let before = context.vfs.getattr(id);
            let committed = context.vfs.commit(id, args.offset, args.count);
            let after = context.vfs.getattr(id);
            proof {
                a.before = before;
                a.committed = committed;
                a.after = after;
            }
            commit_body(context.vfs.serverid(), &before, &committed, &after)
        },
    };
    send_result(xid, &body, output);
    assert(handled(
        old(output)@,
        output@,
        Ok::<(), RpcError>(()),
        commit_outcome(xid, input@, fs, a),
    ));
    Ok(())
}

/// A reply to a COMMIT that succeeded decodes to the attributes of the
/// file on both sides of the commit, and the verifier.
pub proof fn lemma_commit_reports_both_sides(
    xid: u32,
    verf: Seq<u8>,
    before: Result<fattr3, nfsstat3>,
    committed: fattr3,
    after: Result<fattr3, nfsstat3>,
)
    requires
        verf.len() == 8,
    ensures
        ({
            let res = COMMIT3resokView { file_wcc: wcc_between(before, after), verf };
            let reply = result_reply(xid, commit_result(verf, before, Ok(committed), after));
            &&& nfsstat3::parse(reply, 24) == Some((nfsstat3::NFS3_OK, 28int))
            &&& COMMIT3resok::parse(reply, 28) == Some((res, reply.len() as int))
        }),
{
    let res = COMMIT3resokView { file_wcc: wcc_between(before, after), verf };
    let status = nfsstat3::wire(nfsstat3::NFS3_OK);
    let reply = result_reply(xid, status + COMMIT3resok::wire(res));
    lemma_success_reply_len(xid);
    lemma_holds_at_self(reply);
    lemma_holds_at_concat(reply, 0, success_reply_wire(xid), status + COMMIT3resok::wire(res));
    lemma_holds_at_concat(reply, 24, status, COMMIT3resok::wire(res));
    nfsstat3::lemma_roundtrip(nfsstat3::NFS3_OK, reply, 24);
    COMMIT3resok::lemma_roundtrip(res, reply, 28);
}

} // verus!
