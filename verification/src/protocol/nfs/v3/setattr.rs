//! SETATTR: change the attributes of an object.

use crate::protocol::nfs::v3::{
    change_body, change_result, is_read_write, refusal_wcc, refuse_wcc, status, status_of,
};
use crate::protocol::rpc::{
    answers_call, handled, result_reply, send_result, Context, Outcome, RpcError,
};
use crate::protocol::xdr::nfs3::{fattr3, nfsstat3, sattrguard3, SETATTR3args};
use crate::vfs::{resolve_handle, served, Capabilities, NFSFileSystem, Served};
use vstd::prelude::*;

verus! {

/// What a guard has against a change. It has nothing against it when
/// the client names no change time, or names the one that the object
/// has. Where the object has another change time the guard refuses with
/// `NFS3ERR_NOT_SYNC`, and where the object has no attributes to show,
/// with the status of that.
pub open spec fn guard_refuses(guard: sattrguard3, before: Result<fattr3, nfsstat3>) -> Option<
    nfsstat3,
> {
    match guard {
        sattrguard3::Void => None,
        sattrguard3::obj_ctime(c) => match before {
            Err(stat) => Some(stat),
            Ok(attr) => if c.seconds == attr.ctime.seconds && c.nseconds == attr.ctime.nseconds {
                None
            } else {
                Some(nfsstat3::NFS3ERR_NOT_SYNC)
            },
        },
    }
}

/// What a guard has against a change.
pub fn check_guard(guard: &sattrguard3, before: &Result<fattr3, nfsstat3>) -> (refused: Option<
    nfsstat3,
>)
    ensures
        refused == guard_refuses(*guard, *before),
{
    match guard {
        sattrguard3::Void => None,
        sattrguard3::obj_ctime(c) => match before {
            Err(stat) => Some(*stat),
            Ok(attr) => {
                if c.seconds == attr.ctime.seconds && c.nseconds == attr.ctime.nseconds {
                    None
                } else {
                    Some(nfsstat3::NFS3ERR_NOT_SYNC)
                }
            },
        },
    }
}

/// The result of SETATTR. Where the guard refuses, nothing is set, and
/// the result is the status of the refusal with no attributes.
/// Otherwise it holds the status of the change and the attributes of
/// the object on both sides of it.
pub open spec fn setattr_result(
    guard: sattrguard3,
    before: Result<fattr3, nfsstat3>,
    set: Result<fattr3, nfsstat3>,
    after: Result<fattr3, nfsstat3>,
) -> Seq<u8> {
    match guard_refuses(guard, before) {
        Some(stat) => refusal_wcc(stat),
        None => change_result(status_of(set), before, after),
    }
}

/// The result of SETATTR, from what `getattr` answered before,
/// `setattr`, and `getattr` after. Where the guard refuses, the last
/// two are of no account.
pub fn setattr_body(
    guard: &sattrguard3,
    before: &Result<fattr3, nfsstat3>,
    set: &Result<fattr3, nfsstat3>,
    after: &Result<fattr3, nfsstat3>,
) -> (body: Vec<u8>)
    ensures
        body@ == setattr_result(*guard, *before, *set, *after),
{
    match check_guard(guard, before) {
        Some(stat) => refuse_wcc(stat),
        None => change_body(status(set), before, after),
    }
}

/// What the file system said of its files while a SETATTR was handled.
pub struct SetattrAnswers {
    /// The attributes of the object before the attempt.
    pub before: Result<fattr3, nfsstat3>,
    /// The attributes that `setattr` returned.
    pub set: Result<fattr3, nfsstat3>,
    /// The attributes of the object after the attempt.
    pub after: Result<fattr3, nfsstat3>,
}

/// What SETATTR does with a request. A read-only file system refuses
/// before the arguments are looked at, and a handle that does not resolve
/// is answered with the status of that. Every other request is answered
/// with [`setattr_result`].
pub open spec fn setattr_outcome(
    xid: u32,
    input: Seq<u8>,
    fs: Served,
    a: SetattrAnswers,
) -> Outcome {
    if fs.caps != Capabilities::ReadWrite {
        Ok(result_reply(xid, refusal_wcc(nfsstat3::NFS3ERR_ROFS)))
    } else {
        match SETATTR3args::parse(input, 0) {
            None => Err(RpcError::Decode),
            Some((args, _)) => match resolve_handle(fs.generation, args.object) {
                Err(stat) => Ok(result_reply(xid, refusal_wcc(stat))),
                Ok(_) => Ok(
                    result_reply(xid, setattr_result(args.guard, a.before, a.set, a.after)),
                ),
            },
        }
    }
}

/// Handles a SETATTR call: resolves the handle, asks for the attributes
/// of the object and, unless the guard refuses, sets what the client
/// names and asks for the attributes again, and replies what
/// [`setattr_outcome`] gives.
pub fn nfsproc3_setattr<V: NFSFileSystem>(
    xid: u32,
    input: &[u8],
    output: &mut Vec<u8>,
    context: &Context<V>,
) -> (r: Result<(), RpcError>)
    ensures
        exists|a: SetattrAnswers|
            handled(
                old(output)@,
                final(output)@,
                r,
                #[trigger] setattr_outcome(xid, input@, served(&context.vfs), a),
            ),
        context.vfs.caps_of() != Capabilities::ReadWrite ==> final(output)@ == old(output)@
            + result_reply(xid, refusal_wcc(nfsstat3::NFS3ERR_ROFS)),
        context.vfs.caps_of() == Capabilities::ReadWrite ==> match SETATTR3args::parse(input@, 0) {
            Some((args, _)) => match resolve_handle(context.vfs.generation_of(), args.object) {
                Err(stat) => final(output)@ == old(output)@ + result_reply(
                    xid,
                    refusal_wcc(stat),
                ),
                Ok(_) => true,
            },
            None => true,
        },
        r is Err <==> (context.vfs.caps_of() == Capabilities::ReadWrite
            && SETATTR3args::parse(input@, 0) is None),
        r is Err ==> r == Err::<(), RpcError>(RpcError::Decode),
        r is Ok ==> answers_call(old(output)@, final(output)@, xid),
        r is Err ==> final(output)@ == old(output)@,
{
    let ghost fs = served(&context.vfs);
    let ghost mut a = SetattrAnswers {
        before: Err(nfsstat3::NFS3_OK),
        set: Err(nfsstat3::NFS3_OK),
        after: Err(nfsstat3::NFS3_OK),
    };
    let caps = context.vfs.capabilities();
    if !is_read_write(caps) {
        let body = refuse_wcc(nfsstat3::NFS3ERR_ROFS);
        send_result(xid, &body, output);
        assert(handled(
            old(output)@,
            output@,
            Ok::<(), RpcError>(()),
            setattr_outcome(xid, input@, fs, a),
        ));
        return Ok(());
    }
    let args = match SETATTR3args::deserialize(input, 0) {
        Ok((args, _)) => args,
        Err(_) => {
            assert(handled(
                old(output)@,
                output@,
                Err::<(), RpcError>(RpcError::Decode),
                setattr_outcome(xid, input@, fs, a),
            ));
            return Err(RpcError::Decode);
        },
    };
    let body = match context.vfs.fh_to_id(&args.object) {
        Err(stat) => refuse_wcc(stat),
        Ok(id) => {
            let before = context.vfs.getattr(id);
            proof {
                a.before = before;
            }
            let (set, after) = match check_guard(&args.guard, &before) {
                None => {
                    let set = context.vfs.setattr(id, args.new_attribute);
                    let after = context.vfs.getattr(id);
                    proof {
                        a.set = set;
                        a.after = after;
                    }
                    (set, after)
                },
                Some(stat) => (Err(stat), Err(stat)),
            };
            setattr_body(&args.guard, &before, &set, &after)
        },
    };
    send_result(xid, &body, output);
    assert(handled(
        old(output)@,
        output@,
        Ok::<(), RpcError>(()),
        setattr_outcome(xid, input@, fs, a),
    ));
    Ok(())
}

} // verus!
