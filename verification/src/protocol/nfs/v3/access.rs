//! ACCESS: what a client may do with an object.

use crate::protocol::nfs::v3::{refusal_attr, refuse_attr, status_body};
use crate::protocol::rpc::{
    answers_call, handled, result_reply, send_result, Context, Outcome, RpcError,
};
use crate::protocol::xdr::{decode_u32, encode_u32, parse_u32, u32_wire};
use crate::protocol::xdr::nfs3::{
    fattr3, ftype3, nfs_fh3, nfsstat3, post_op_attr, ACCESS3_DELETE, ACCESS3_EXECUTE,
    ACCESS3_EXTEND, ACCESS3_LOOKUP, ACCESS3_MODIFY, ACCESS3_READ,
};
use crate::vfs::{resolve_handle, served, Capabilities, NFSFileSystem, Served};
use vstd::prelude::*;

verus! {

/// The rights that are granted of those that a client asks for. They go
/// by the type of the object and by what the file system allows, not by
/// who asks:
///
/// | type      | read-only file system | writable file system                  |
/// |-----------|-----------------------|---------------------------------------|
/// | file      | read, execute         | all that is asked                     |
/// | directory | read                  | read, execute, modify, extend, delete |
/// | link      | read                  | read                                  |
/// | other     | read, execute         | read, execute                         |
///
/// Lookup is granted for every object, asked for or not.
pub open spec fn granted_access(ftype: ftype3, caps: Capabilities, requested: u32) -> u32 {
    ACCESS3_LOOKUP | match ftype {
        ftype3::NF3REG => if caps == Capabilities::ReadWrite {
            requested
        } else {
            requested & (ACCESS3_READ | ACCESS3_EXECUTE)
        },
        ftype3::NF3DIR => if caps == Capabilities::ReadWrite {
            (requested & (ACCESS3_READ | ACCESS3_EXECUTE)) | (requested & (ACCESS3_MODIFY
                | ACCESS3_EXTEND | ACCESS3_DELETE))
        } else {
            requested & ACCESS3_READ
        },
        ftype3::NF3LNK => requested & ACCESS3_READ,
        _ => requested & (ACCESS3_READ | ACCESS3_EXECUTE),
    }
}

/// The rights that are granted of those that a client asks for.
pub fn grant_access(ftype: ftype3, caps: Capabilities, requested: u32) -> (granted: u32)
    ensures
        granted == granted_access(ftype, caps, requested),
{
    let read_write = match caps {
        Capabilities::ReadWrite => true,
        Capabilities::ReadOnly => false,
    };
    let by_type = match ftype {
        ftype3::NF3REG => {
            if read_write {
                requested
            } else {
                requested & (ACCESS3_READ | ACCESS3_EXECUTE)
            }
        },
        ftype3::NF3DIR => {
            if read_write {
                (requested & (ACCESS3_READ | ACCESS3_EXECUTE)) | (requested & (ACCESS3_MODIFY
                    | ACCESS3_EXTEND | ACCESS3_DELETE))
            } else {
                requested & ACCESS3_READ
            }
        },
        ftype3::NF3LNK => requested & ACCESS3_READ,
        _ => requested & (ACCESS3_READ | ACCESS3_EXECUTE),
    };
    ACCESS3_LOOKUP | by_type
}

/// No right is granted that was not asked for, but lookup.
pub proof fn lemma_granted_is_asked(ftype: ftype3, caps: Capabilities, requested: u32)
    ensures
        granted_access(ftype, caps, requested) & !(requested | ACCESS3_LOOKUP) == 0,
        granted_access(ftype, caps, requested) & ACCESS3_LOOKUP == ACCESS3_LOOKUP,
{
    let r = requested;
    assert((0x2u32 | r) & !(r | 0x2u32) == 0) by (bit_vector);
    assert((0x2u32 | (r & (0x1u32 | 0x20u32))) & !(r | 0x2u32) == 0) by (bit_vector);
    assert((0x2u32 | ((r & (0x1u32 | 0x20u32)) | (r & (0x4u32 | 0x8u32 | 0x10u32)))) & !(r
        | 0x2u32) == 0) by (bit_vector);
    assert((0x2u32 | (r & 0x1u32)) & !(r | 0x2u32) == 0) by (bit_vector);
    assert forall|x: u32| #![auto] (0x2u32 | x) & 0x2u32 == 0x2u32 by {
        assert((0x2u32 | x) & 0x2u32 == 0x2u32) by (bit_vector);
    }
}

/// The arguments of ACCESS: a handle, and the rights that the client
/// asks about.
pub open spec fn parse_access_args(input: Seq<u8>) -> Option<(Seq<u8>, u32)> {
    match nfs_fh3::parse(input, 0) {
        None => None,
        Some((handle, a1)) => match parse_u32(input, a1) {
            None => None,
            Some((access, _)) => Some((handle, access)),
        },
    }
}

/// The result of ACCESS: the attributes of the object and the rights
/// that [`granted_access`] grants; for an object without attributes the
/// status of that, and none.
pub open spec fn access_result(
    attr: Result<fattr3, nfsstat3>,
    caps: Capabilities,
    requested: u32,
) -> Seq<u8> {
    match attr {
        Err(stat) => refusal_attr(stat),
        Ok(a) => nfsstat3::wire(nfsstat3::NFS3_OK) + post_op_attr::wire(post_op_attr::attributes(a))
            + u32_wire(granted_access(a.ftype, caps, requested)),
    }
}

/// The result of ACCESS, from what `getattr` answered.
pub fn access_body(attr: &Result<fattr3, nfsstat3>, caps: Capabilities, requested: u32) -> (body:
    Vec<u8>)
    ensures
        body@ == access_result(*attr, caps, requested),
{
    match attr {
        Err(stat) => refuse_attr(*stat),
        Ok(a) => {
            let mut body = status_body(nfsstat3::NFS3_OK);
            post_op_attr::attributes(*a).serialize(&mut body);
            encode_u32(grant_access(a.ftype, caps, requested), &mut body);
            body
        },
    }
}

/// What the file system said of its files while an ACCESS was handled.
pub struct AccessAnswers {
    /// The attributes of the object.
    pub attr: Result<fattr3, nfsstat3>,
}

/// What ACCESS does with a request. A handle that does not resolve is
/// answered with the status of that and no attributes; every other with
/// [`access_result`].
pub open spec fn access_outcome(
    xid: u32,
    input: Seq<u8>,
    fs: Served,
    a: AccessAnswers,
) -> Outcome {
    match parse_access_args(input) {
        None => Err(RpcError::Decode),
        Some((handle, requested)) => match resolve_handle(fs.generation, handle) {
            Err(stat) => Ok(result_reply(xid, refusal_attr(stat))),
            Ok(_) => Ok(result_reply(xid, access_result(a.attr, fs.caps, requested))),
        },
    }
}

/// Handles an ACCESS call: resolves the handle, asks for the attributes
/// of the object and for what the file system allows, and replies what
/// [`access_outcome`] gives.
pub fn nfsproc3_access<V: NFSFileSystem>(
    xid: u32,
    input: &[u8],
    output: &mut Vec<u8>,
    context: &Context<V>,
) -> (r: Result<(), RpcError>)
    ensures
        exists|a: AccessAnswers|
            handled(
                old(output)@,
                final(output)@,
                r,
                #[trigger] access_outcome(xid, input@, served(&context.vfs), a),
            ),
        match parse_access_args(input@) {
            Some((handle, requested)) => match resolve_handle(context.vfs.generation_of(), handle) {
                Err(stat) => final(output)@ == old(output)@ + result_reply(
                    xid,
                    refusal_attr(stat),
                ),
                Ok(_) => true,
            },
            None => true,
        },
        r is Err <==> parse_access_args(input@) is None,
        r is Err ==> r == Err::<(), RpcError>(RpcError::Decode),
        r is Ok ==> answers_call(old(output)@, final(output)@, xid),
        r is Err ==> final(output)@ == old(output)@,
{
    let ghost fs = served(&context.vfs);
    let ghost mut a = AccessAnswers {
        attr: Err(nfsstat3::NFS3_OK),
    };
    let (handle, at) = match nfs_fh3::deserialize(input, 0) {
        Ok(p) => p,
        Err(_) => {
            assert(handled(
                old(output)@,
                output@,
                Err::<(), RpcError>(RpcError::Decode),
                access_outcome(xid, input@, fs, a),
            ));
            return Err(RpcError::Decode);
        },
    };
    let (requested, _) = match decode_u32(input, at) {
        Ok(p) => p,
        Err(_) => {
            assert(handled(
                old(output)@,
                output@,
                Err::<(), RpcError>(RpcError::Decode),
                access_outcome(xid, input@, fs, a),
            ));
            return Err(RpcError::Decode);
        },
    };
    let body = match context.vfs.fh_to_id(&handle) {
        Err(stat) => refuse_attr(stat),
        Ok(id) => {
            let attr = context.vfs.getattr(id);
            proof {
                a.attr = attr;
            }
            access_body(&attr, context.vfs.capabilities(), requested)
        },
    };
    send_result(xid, &body, output);
    assert(handled(
        old(output)@,
        output@,
        Ok::<(), RpcError>(()),
        access_outcome(xid, input@, fs, a),
    ));
    Ok(())
}

} // verus!
