//! LOOKUP: the object behind a name in a directory.

use crate::protocol::nfs::v3::{refusal_attr, refuse_attr, status_body};
use crate::protocol::rpc::{
    answers_call, handled, result_reply, send_result, Context, Outcome, RpcError,
};
use crate::protocol::xdr::nfs3::{diropargs3, fattr3, fileid3, nfs_fh3, nfsstat3, post_op_attr};
use crate::vfs::{handle_bytes, post_op, post_op_of, resolve_handle, served, NFSFileSystem, Served};
use vstd::prelude::*;

verus! {

/// The result of LOOKUP. For an object that was found it holds the
/// handle and the attributes of the object; either way it holds the
/// attributes of the directory.
pub open spec fn lookup_result(
    found: Result<(Seq<u8>, Result<fattr3, nfsstat3>), nfsstat3>,
    dir_attr: Result<fattr3, nfsstat3>,
) -> Seq<u8> {
    match found {
        Err(stat) => nfsstat3::wire(stat) + post_op_attr::wire(post_op_of(dir_attr)),
        Ok((handle, obj_attr)) => nfsstat3::wire(nfsstat3::NFS3_OK) + nfs_fh3::wire(handle)
            + post_op_attr::wire(post_op_of(obj_attr)) + post_op_attr::wire(post_op_of(dir_attr)),
    }
}

/// What `lookup` found, as plain values.
pub open spec fn found_view(found: Result<(nfs_fh3, Result<fattr3, nfsstat3>), nfsstat3>) -> Result<
    (Seq<u8>, Result<fattr3, nfsstat3>),
    nfsstat3,
> {
    match found {
        Ok((handle, obj_attr)) => Ok((handle@, obj_attr)),
        Err(stat) => Err(stat),
    }
}

/// The result of LOOKUP, from what `lookup` found, and what `getattr`
/// answered of that and of the directory.
pub fn lookup_body(
    found: &Result<(nfs_fh3, Result<fattr3, nfsstat3>), nfsstat3>,
    dir_attr: &Result<fattr3, nfsstat3>,
) -> (body: Vec<u8>)
    requires
        found matches Ok(f) ==> nfs_fh3::encodable(f.0@),
    ensures
        body@ == lookup_result(found_view(*found), *dir_attr),
{
    match found {
        Err(stat) => {
            let mut body = status_body(*stat);
            post_op(dir_attr).serialize(&mut body);
            body
        },
        Ok((handle, obj_attr)) => {
            let mut body = status_body(nfsstat3::NFS3_OK);
            handle.serialize(&mut body);
            post_op(obj_attr).serialize(&mut body);
            post_op(dir_attr).serialize(&mut body);
            body
        },
    }
}

/// What the file system said of its files while a LOOKUP was handled.
pub struct LookupAnswers {
    /// The attributes of the directory.
    pub dir_attr: Result<fattr3, nfsstat3>,
    /// The object behind the name.
    pub found: Result<fileid3, nfsstat3>,
    /// The attributes of that object.
    pub obj_attr: Result<fattr3, nfsstat3>,
}

/// What LOOKUP does with a request. A handle that does not resolve is
/// answered with the status of that and no attributes; every other with
/// [`lookup_result`], where the object has the handle of its id.
pub open spec fn lookup_outcome(
    xid: u32,
    input: Seq<u8>,
    fs: Served,
    a: LookupAnswers,
) -> Outcome {
    match diropargs3::parse(input, 0) {
        None => Err(RpcError::Decode),
        Some((args, _)) => match resolve_handle(fs.generation, args.dir) {
            Err(stat) => Ok(result_reply(xid, refusal_attr(stat))),
            Ok(_) => Ok(
                result_reply(
                    xid,
                    lookup_result(
                        match a.found {
                            Ok(id) => Ok((handle_bytes(fs.generation, id), a.obj_attr)),
                            Err(stat) => Err(stat),
                        },
                        a.dir_attr,
                    ),
                ),
            ),
        },
    }
}

/// Handles a LOOKUP call: resolves the handle, asks for the attributes of
/// the directory, looks the name up in it, asks for the attributes of
/// what was found, and replies what [`lookup_outcome`] gives.
pub fn nfsproc3_lookup<V: NFSFileSystem>(
    xid: u32,
    input: &[u8],
    output: &mut Vec<u8>,
    context: &Context<V>,
) -> (r: Result<(), RpcError>)
    ensures
        exists|a: LookupAnswers|
            handled(
                old(output)@,
                final(output)@,
                r,
                #[trigger] lookup_outcome(xid, input@, served(&context.vfs), a),
            ),
        match diropargs3::parse(input@, 0) {
            Some((args, _)) => match resolve_handle(context.vfs.generation_of(), args.dir) {
                Err(stat) => final(output)@ == old(output)@ + result_reply(
                    xid,
                    refusal_attr(stat),
                ),
                Ok(_) => true,
            },
            None => true,
        },
        r is Err <==> diropargs3::parse(input@, 0) is None,
        r is Err ==> r == Err::<(), RpcError>(RpcError::Decode),
        r is Ok ==> answers_call(old(output)@, final(output)@, xid),
        r is Err ==> final(output)@ == old(output)@,
{
    let ghost fs = served(&context.vfs);
    let ghost mut a = LookupAnswers {
        dir_attr: Err(nfsstat3::NFS3_OK),
        found: Err(nfsstat3::NFS3_OK),
        obj_attr: Err(nfsstat3::NFS3_OK),
    };
    let args = match diropargs3::deserialize(input, 0) {
        Ok((args, _)) => args,
        Err(_) => {
            assert(handled(
                old(output)@,
                output@,
                Err::<(), RpcError>(RpcError::Decode),
                lookup_outcome(xid, input@, fs, a),
            ));
            return Err(RpcError::Decode);
        },
    };
    let body = match context.vfs.fh_to_id(&args.dir) {
        Err(stat) => refuse_attr(stat),
        Ok(dirid) => {
            let dir_attr = context.vfs.getattr(dirid);
            let looked_up = context.vfs.lookup(dirid, &args.name);
            proof {
                a.dir_attr = dir_attr;
                a.found = looked_up;
            }
            let found = match looked_up {
                Err(stat) => Err(stat),
                Ok(id) => {
                    let obj_attr = context.vfs.getattr(id);
                    proof {
                        a.obj_attr = obj_attr;
                    }
                    Ok((context.vfs.id_to_fh(id), obj_attr))
                },
            };
            lookup_body(&found, &dir_attr)
        },
    };
    send_result(xid, &body, output);
    assert(handled(
        old(output)@,
        output@,
        Ok::<(), RpcError>(()),
        lookup_outcome(xid, input@, fs, a),
    ));
    Ok(())
}

} // verus!
