//! READLINK: the target of a symbolic link.

use crate::protocol::nfs::v3::{refusal_attr, refuse_attr, status_body};
use crate::protocol::rpc::{
    answers_call, handled, result_reply, send_result, Context, Outcome, RpcError,
};
use crate::protocol::xdr::nfs3::{fattr3, nfs_fh3, nfsstat3, nfsstring, post_op_attr};
use crate::vfs::{resolve_handle, served, NFSFileSystem, Served};
use vstd::prelude::*;

verus! {

/// The result of READLINK. A link without attributes is taken not to
/// exist. Otherwise the result holds the attributes, and the target
/// where the file system gave it. A target that is too long for the
/// wire has no result.
pub open spec fn readlink_result(
    attr: Result<fattr3, nfsstat3>,
    target: Result<Seq<u8>, nfsstat3>,
) -> Result<Seq<u8>, RpcError> {
    match attr {
        Err(stat) => Ok(refusal_attr(stat)),
        Ok(a) => match target {
            Err(stat) => Ok(
                nfsstat3::wire(stat) + post_op_attr::wire(post_op_attr::attributes(a)),
            ),
            Ok(path) => if nfsstring::encodable(path) {
                Ok(
                    nfsstat3::wire(nfsstat3::NFS3_OK) + post_op_attr::wire(
                        post_op_attr::attributes(a),
                    ) + nfsstring::wire(path),
                )
            } else {
                Err(RpcError::Unencodable)
            },
        },
    }
}

/// A target, as plain values.
pub open spec fn target_view(target: Result<nfsstring, nfsstat3>) -> Result<Seq<u8>, nfsstat3> {
    match target {
        Ok(path) => Ok(path@),
        Err(stat) => Err(stat),
    }
}

/// The result of READLINK, from what `getattr` and `readlink` answered.
/// Where `getattr` failed, `target` is of no account.
pub fn readlink_body(attr: &Result<fattr3, nfsstat3>, target: &Result<nfsstring, nfsstat3>) -> (r:
    Result<Vec<u8>, RpcError>)
    ensures
        match readlink_result(*attr, target_view(*target)) {
            Ok(body) => r matches Ok(b) && b@ == body,
            Err(e) => r == Err::<Vec<u8>, RpcError>(e),
        },
{
    match attr {
        Err(stat) => Ok(refuse_attr(*stat)),
        Ok(a) => match target {
            Err(stat) => {
                let mut body = status_body(*stat);
                post_op_attr::attributes(*a).serialize(&mut body);
                Ok(body)
            },
            Ok(path) => {
                if !path.fits() {
                    return Err(RpcError::Unencodable);
                }
                let mut body = status_body(nfsstat3::NFS3_OK);
                post_op_attr::attributes(*a).serialize(&mut body);
                path.serialize(&mut body);
                Ok(body)
            },
        },
    }
}

/// What the file system said of its files while a READLINK was handled.
pub struct ReadlinkAnswers {
    /// The attributes of the link.
    pub attr: Result<fattr3, nfsstat3>,
    /// The target of the link.
    pub target: Result<Seq<u8>, nfsstat3>,
}

/// What READLINK does with a request. A handle that does not resolve is
/// answered with the status of that and no attributes; every other with
/// [`readlink_result`].
pub open spec fn readlink_outcome(
    xid: u32,
    input: Seq<u8>,
    fs: Served,
    a: ReadlinkAnswers,
) -> Outcome {
    match nfs_fh3::parse(input, 0) {
        None => Err(RpcError::Decode),
        Some((handle, _)) => match resolve_handle(fs.generation, handle) {
            Err(stat) => Ok(result_reply(xid, refusal_attr(stat))),
            Ok(_) => match readlink_result(a.attr, a.target) {
                Ok(body) => Ok(result_reply(xid, body)),
                Err(e) => Err(e),
            },
        },
    }
}

/// Handles a READLINK call: resolves the handle, asks for the attributes
/// of the link and, where it has any, for its target, and replies what
/// [`readlink_outcome`] gives.
pub fn nfsproc3_readlink<V: NFSFileSystem>(
    xid: u32,
    input: &[u8],
    output: &mut Vec<u8>,
    context: &Context<V>,
) -> (r: Result<(), RpcError>)
    ensures
        exists|a: ReadlinkAnswers|
            handled(
                old(output)@,
                final(output)@,
                r,
                #[trigger] readlink_outcome(xid, input@, served(&context.vfs), a),
            ),
        match nfs_fh3::parse(input@, 0) {
            Some((handle, _)) => match resolve_handle(context.vfs.generation_of(), handle) {
                Err(stat) => final(output)@ == old(output)@ + result_reply(
                    xid,
                    refusal_attr(stat),
                ),
                Ok(_) => true,
            },
            None => true,
        },
        r == Err::<(), RpcError>(RpcError::Decode) <==> nfs_fh3::parse(input@, 0) is None,
        r is Ok ==> answers_call(old(output)@, final(output)@, xid),
        r is Err ==> final(output)@ == old(output)@,
{
    let ghost fs = served(&context.vfs);
    let ghost mut a = ReadlinkAnswers {
        attr: Err(nfsstat3::NFS3_OK),
        target: Err(nfsstat3::NFS3_OK),
    };
    let handle = match nfs_fh3::deserialize(input, 0) {
        Ok((handle, _)) => handle,
        Err(_) => {
            assert(handled(
                old(output)@,
                output@,
                Err::<(), RpcError>(RpcError::Decode),
                readlink_outcome(xid, input@, fs, a),
            ));
            return Err(RpcError::Decode);
        },
    };
    let body = match context.vfs.fh_to_id(&handle) {
        Err(stat) => refuse_attr(stat),
        Ok(id) => {
            let attr = context.vfs.getattr(id);
            let target = match attr {
                Ok(_) => context.vfs.readlink(id),
                Err(stat) => Err(stat),
            };
            proof {
                a.attr = attr;
                a.target = target_view(target);
            }
            match readlink_body(&attr, &target) {
                Ok(body) => body,
                Err(e) => {
                    assert(handled(
                        old(output)@,
                        output@,
                        Err::<(), RpcError>(RpcError::Unencodable),
                        readlink_outcome(xid, input@, fs, a),
                    ));
                    return Err(e);
                },
            }
        },
    };
    send_result(xid, &body, output);
    assert(handled(
        old(output)@,
        output@,
        Ok::<(), RpcError>(()),
        readlink_outcome(xid, input@, fs, a),
    ));
    Ok(())
}

} // verus!
