//! PATHCONF: what POSIX wants to know of a file.

use crate::protocol::nfs::v3::{refusal_attr, refuse_attr, status_body};
use crate::protocol::rpc::{
    answers_call, handled, result_reply, send_result, Context, Outcome, RpcError,
};
use crate::protocol::xdr::nfs3::{fattr3, nfs_fh3, nfsstat3, post_op_attr, PATHCONF3resok};
use crate::vfs::{post_op, post_op_of, resolve_handle, served, NFSFileSystem, Served};
use vstd::prelude::*;

verus! {

/// What is reported of every file: no limit on links, names of up to
/// 32768 bytes that are refused rather than cut short, owners that only
/// a privileged user changes, and names whose case counts and is kept.
pub open spec fn pathconf_defaults(obj_attributes: post_op_attr) -> PATHCONF3resok {
    PATHCONF3resok {
        obj_attributes,
        linkmax: 0,
        name_max: 32768,
        no_trunc: true,
        chown_restricted: true,
        case_insensitive: false,
        case_preserving: true,
    }
}

/// What is reported of every file.
pub fn default_pathconf(obj_attributes: post_op_attr) -> (r: PATHCONF3resok)
    ensures
        r == pathconf_defaults(obj_attributes),
{
    PATHCONF3resok {
        obj_attributes,
        linkmax: 0,
        name_max: 32768,
        no_trunc: true,
        chown_restricted: true,
        case_insensitive: false,
        case_preserving: true,
    }
}

/// The result of PATHCONF: [`pathconf_defaults`], with the attributes of the object
/// where they can be had.
pub open spec fn pathconf_result(attr: Result<fattr3, nfsstat3>) -> Seq<u8> {
    nfsstat3::wire(nfsstat3::NFS3_OK) + PATHCONF3resok::wire(pathconf_defaults(post_op_of(attr)))
}

/// The result of PATHCONF, from what `getattr` answered.
pub fn pathconf_body(attr: &Result<fattr3, nfsstat3>) -> (body: Vec<u8>)
    ensures
        body@ == pathconf_result(*attr),
{
    let mut body = status_body(nfsstat3::NFS3_OK);
    default_pathconf(post_op(attr)).serialize(&mut body);
    body
}

/// What the file system said of its files while a PATHCONF was handled.
pub struct PathconfAnswers {
    /// The attributes of the object.
    pub attr: Result<fattr3, nfsstat3>,
}

/// What PATHCONF does with a request. A handle that does not resolve is
/// answered with the status of that and no attributes; every other with
/// [`pathconf_result`].
pub open spec fn pathconf_outcome(
    xid: u32,
    input: Seq<u8>,
    fs: Served,
    a: PathconfAnswers,
) -> Outcome {
    match nfs_fh3::parse(input, 0) {
        None => Err(RpcError::Decode),
        Some((handle, _)) => match resolve_handle(fs.generation, handle) {
            Err(stat) => Ok(result_reply(xid, refusal_attr(stat))),
            Ok(_) => Ok(result_reply(xid, pathconf_result(a.attr))),
        },
    }
}

/// Handles a PATHCONF call: resolves the handle, asks for the attributes
/// of the object, and replies what [`pathconf_outcome`] gives.
pub fn nfsproc3_pathconf<V: NFSFileSystem>(
    xid: u32,
    input: &[u8],
    output: &mut Vec<u8>,
    context: &Context<V>,
) -> (r: Result<(), RpcError>)
    ensures
        exists|a: PathconfAnswers|
            handled(
                old(output)@,
                final(output)@,
                r,
                #[trigger] pathconf_outcome(xid, input@, served(&context.vfs), a),
            ),
        match nfs_fh3::parse(input@, 0) {
            Some((handle, _)) => match resolve_handle(context.vfs.generation_of(), handle) {
                Err(stat) => final(output)@ == old(output)@ + result_reply(
                    xid,
                    refusal_attr(stat),
                ),
                Ok(_) => true,
            },
            None => true,
        },
        r is Err <==> nfs_fh3::parse(input@, 0) is None,
        r is Err ==> r == Err::<(), RpcError>(RpcError::Decode),
        r is Ok ==> answers_call(old(output)@, final(output)@, xid),
        r is Err ==> final(output)@ == old(output)@,
{
    let ghost fs = served(&context.vfs);
    let ghost mut a = PathconfAnswers {
        attr: Err(nfsstat3::NFS3_OK),
    };
    let handle = match nfs_fh3::deserialize(input, 0) {
        Ok((handle, _)) => handle,
        Err(_) => {
            assert(handled(
                old(output)@,
                output@,
                Err::<(), RpcError>(RpcError::Decode),
                pathconf_outcome(xid, input@, fs, a),
            ));
            return Err(RpcError::Decode);
        },
    };
    let body = match context.vfs.fh_to_id(&handle) {
        Err(stat) => refuse_attr(stat),
        Ok(id) => {
            let attr = context.vfs.getattr(id);
            proof {
                a.attr = attr;
            }
            pathconf_body(&attr)
        },
    };
    send_result(xid, &body, output);
    assert(handled(
        old(output)@,
        output@,
        Ok::<(), RpcError>(()),
        pathconf_outcome(xid, input@, fs, a),
    ));
    Ok(())
}

} // verus!
