//! CREATE: make a file.

use crate::protocol::nfs::v3::{
    change_body, change_result, is_read_write, made_body, made_result, made_view, refusal_wcc,
    refuse_wcc, with_handle,
};
use crate::protocol::rpc::{
    answers_call, handled, result_reply, send_result, Context, Outcome, RpcError,
};
use crate::protocol::xdr::nfs3::{
    createhow3, fattr3, fileid3, nfs_fh3, nfsstat3, post_op_attr, CREATE3args,
};
use crate::vfs::{resolve_handle, served, Capabilities, NFSFileSystem, Served};
use vstd::prelude::*;

verus! {

/// The result of CREATE. A guarded create that found the name taken is
/// refused with `NFS3ERR_EXIST`. Otherwise the result is that of an
/// attempt to make an object, as [`made_result`] lays it out.
pub open spec fn create_result(
    taken: bool,
    made: Result<(Seq<u8>, post_op_attr), nfsstat3>,
    before: Result<fattr3, nfsstat3>,
    after: Result<fattr3, nfsstat3>,
) -> Seq<u8> {
    if taken {
        change_result(nfsstat3::NFS3ERR_EXIST, before, after)
    } else {
        made_result(made, before, after)
    }
}

/// The result of CREATE, from whether the name was found taken, and
/// what `create` and `getattr` answered. Where the name was taken, `made`
/// is of no account.
pub fn create_body(
    taken: bool,
    made: Result<(nfs_fh3, post_op_attr), nfsstat3>,
    before: &Result<fattr3, nfsstat3>,
    after: &Result<fattr3, nfsstat3>,
) -> (body: Vec<u8>)
    requires
        made matches Ok(m) ==> nfs_fh3::encodable(m.0@),
    ensures
        body@ == create_result(taken, made_view(made), *before, *after),
{
    if taken {
        change_body(nfsstat3::NFS3ERR_EXIST, before, after)
    } else {
        made_body(made, before, after)
    }
}

/// What a CREATE made: for an exclusive create what `create_exclusive`
/// answered, without attributes, and for every other what `create`
/// answered.
pub open spec fn created(
    how: createhow3,
    created: Result<(fileid3, fattr3), nfsstat3>,
    exclusive: Result<fileid3, nfsstat3>,
) -> Result<(fileid3, post_op_attr), nfsstat3> {
    if how is EXCLUSIVE {
        match exclusive {
            Ok(id) => Ok((id, post_op_attr::Void)),
            Err(stat) => Err(stat),
        }
    } else {
        match created {
            Ok((id, attr)) => Ok((id, post_op_attr::attributes(attr))),
            Err(stat) => Err(stat),
        }
    }
}

/// What the file system said of its files while a CREATE was handled.
pub struct CreateAnswers {
    /// The attributes of the directory before the attempt.
    pub before: Result<fattr3, nfsstat3>,
    /// What stands under the name already, asked for a guarded create.
    pub existing: Result<fileid3, nfsstat3>,
    /// What `create` answered.
    pub created: Result<(fileid3, fattr3), nfsstat3>,
    /// What `create_exclusive` answered.
    pub exclusive: Result<fileid3, nfsstat3>,
    /// The attributes of the directory after the attempt.
    pub after: Result<fattr3, nfsstat3>,
}

/// What CREATE does with a request. A read-only file system refuses
/// before the arguments are looked at, and a handle that does not resolve
/// is answered with the status of that. Every other request is answered
/// with [`create_result`]: the name counts as taken where the create is
/// guarded and `lookup` finds it, and what is made has the handle of its
/// id.
pub open spec fn create_outcome(
    xid: u32,
    input: Seq<u8>,
    fs: Served,
    a: CreateAnswers,
) -> Outcome {
    if fs.caps != Capabilities::ReadWrite {
        Ok(result_reply(xid, refusal_wcc(nfsstat3::NFS3ERR_ROFS)))
    } else {
        match CREATE3args::parse(input, 0) {
            None => Err(RpcError::Decode),
            Some((args, _)) => match resolve_handle(fs.generation, args.where_dir.dir) {
                Err(stat) => Ok(result_reply(xid, refusal_wcc(stat))),
                Ok(_) => Ok(
                    result_reply(
                        xid,
                        create_result(
                            args.how is GUARDED && a.existing is Ok,
                            with_handle(fs.generation, created(args.how, a.created, a.exclusive)),
                            a.before,
                            a.after,
                        ),
                    ),
                ),
            },
        }
    }
}

/// Handles a CREATE call: resolves the handle, asks for the attributes of
/// the directory, looks the name up where the create is guarded, makes
/// the file unless the name is taken, asks for the attributes again, and
/// replies what [`create_outcome`] gives.
pub fn nfsproc3_create<V: NFSFileSystem>(
    xid: u32,
    input: &[u8],
    output: &mut Vec<u8>,
    context: &Context<V>,
) -> (r: Result<(), RpcError>)
    ensures
        exists|a: CreateAnswers|
            handled(
                old(output)@,
                final(output)@,
                r,
                #[trigger] create_outcome(xid, input@, served(&context.vfs), a),
            ),
        context.vfs.caps_of() != Capabilities::ReadWrite ==> final(output)@ == old(output)@
            + result_reply(xid, refusal_wcc(nfsstat3::NFS3ERR_ROFS)),
        context.vfs.caps_of() == Capabilities::ReadWrite ==> match CREATE3args::parse(input@, 0) {
            Some((args, _)) => match resolve_handle(
                context.vfs.generation_of(),
                args.where_dir.dir,
            ) {
                Err(stat) => final(output)@ == old(output)@ + result_reply(
                    xid,
                    refusal_wcc(stat),
                ),
                Ok(_) => true,
            },
            None => true,
        },
        r is Err <==> (context.vfs.caps_of() == Capabilities::ReadWrite
            && CREATE3args::parse(input@, 0) is None),
        r is Err ==> r == Err::<(), RpcError>(RpcError::Decode),
        r is Ok ==> answers_call(old(output)@, final(output)@, xid),
        r is Err ==> final(output)@ == old(output)@,
{
    let ghost fs = served(&context.vfs);
    let ghost mut a = CreateAnswers {
        before: Err(nfsstat3::NFS3_OK),
        existing: Err(nfsstat3::NFS3_OK),
        created: Err(nfsstat3::NFS3_OK),
        exclusive: Err(nfsstat3::NFS3_OK),
        after: Err(nfsstat3::NFS3_OK),
    };
    let caps = context.vfs.capabilities();
    if !is_read_write(caps) {
        let body = refuse_wcc(nfsstat3::NFS3ERR_ROFS);
        send_result(xid, &body, output);
        assert(handled(
            old(output)@,
            output@,
            Ok::<(), RpcError>(()),
            create_outcome(xid, input@, fs, a),
        ));
        return Ok(());
    }
    let args = match CREATE3args::deserialize(input, 0) {
        Ok((args, _)) => args,
        Err(_) => {
            assert(handled(
                old(output)@,
                output@,
                Err::<(), RpcError>(RpcError::Decode),
                create_outcome(xid, input@, fs, a),
            ));
            return Err(RpcError::Decode);
        },
    };
    let body = match context.vfs.fh_to_id(&args.where_dir.dir) {
        Err(stat) => refuse_wcc(stat),
        Ok(dirid) => {
            let before = context.vfs.getattr(dirid);
            let taken = match args.how {
                createhow3::GUARDED(_) => {
                    let existing = context.vfs.lookup(dirid, &args.where_dir.name);
                    proof {
                        a.existing = existing;
                    }
                    existing.is_ok()
                },
                _ => false,
            };
            let made = if taken {
                Err(nfsstat3::NFS3ERR_EXIST)
            } else {
                match args.how {
                    createhow3::EXCLUSIVE => {
                        let exclusive = context.vfs.create_exclusive(dirid, &args.where_dir.name);
                        proof {
                            a.exclusive = exclusive;
                        }
                        match exclusive {
                            Ok(id) => Ok((context.vfs.id_to_fh(id), post_op_attr::Void)),
                            Err(stat) => Err(stat),
                        }
                    },
                    createhow3::UNCHECKED(attr) | createhow3::GUARDED(attr) => {
                        let created = context.vfs.create(dirid, &args.where_dir.name, attr);
                        proof {
                            a.created = created;
                        }
                        match created {
                            Ok((id, attr)) => {
                                let handle = context.vfs.id_to_fh(id);
                                Ok((handle, post_op_attr::attributes(attr)))
                            },
                            Err(stat) => Err(stat),
                        }
                    },
                }
            };
            let after = context.vfs.getattr(dirid);
            proof {
                a.before = before;
                a.after = after;
            }
            create_body(taken, made, &before, &after)
        },
    };
    send_result(xid, &body, output);
    assert(handled(
        old(output)@,
        output@,
        Ok::<(), RpcError>(()),
        create_outcome(xid, input@, fs, a),
    ));
    Ok(())
}

} // verus!
