//! READ: bytes of a file.

use crate::protocol::nfs::v3::{refusal_attr, refuse_attr, status_body};
use crate::protocol::rpc::{
    answers_call, handled, result_reply, send_result, Context, Outcome, RpcError,
};
use crate::protocol::xdr::opaque_encodable;
use crate::protocol::xdr::nfs3::{
    fattr3, nfsstat3, post_op_attr, READ3args, READ3resok, READ3resokView,
};
use crate::vfs::{post_op, post_op_of, resolve_handle, served, NFSFileSystem, Served};
use vstd::prelude::*;

verus! {

/// The result of READ: the bytes that the file system gave and their
/// number, which may be less than was asked for, and whether they reach
/// the end of the file; either way the attributes of the file where
/// they can be had. More bytes than the wire can count have no result.
pub open spec fn read_result(
    attr: Result<fattr3, nfsstat3>,
    read: Result<(Seq<u8>, bool), nfsstat3>,
) -> Result<Seq<u8>, RpcError> {
    match read {
        Err(stat) => Ok(nfsstat3::wire(stat) + post_op_attr::wire(post_op_of(attr))),
        Ok((data, eof)) => if opaque_encodable(data) {
            Ok(
                nfsstat3::wire(nfsstat3::NFS3_OK) + READ3resok::wire(
                    READ3resokView {
                        file_attributes: post_op_of(attr),
                        count: data.len() as u32,
                        eof,
                        data,
                    },
                ),
            )
        } else {
            Err(RpcError::Unencodable)
        },
    }
}

/// What was read, as plain values.
pub open spec fn read_view(read: Result<(Vec<u8>, bool), nfsstat3>) -> Result<
    (Seq<u8>, bool),
    nfsstat3,
> {
    match read {
        Ok((data, eof)) => Ok((data@, eof)),
        Err(stat) => Err(stat),
    }
}

/// The result of READ, from what `getattr` and `read` answered.
pub fn read_body(attr: &Result<fattr3, nfsstat3>, read: Result<(Vec<u8>, bool), nfsstat3>) -> (r:
    Result<Vec<u8>, RpcError>)
    ensures
        match read_result(*attr, read_view(read)) {
            Ok(body) => r matches Ok(b) && b@ == body,
            Err(e) => r == Err::<Vec<u8>, RpcError>(e),
        },
{
    match read {
        Err(stat) => {
            let mut body = status_body(stat);
            post_op(attr).serialize(&mut body);
            Ok(body)
        },
        Ok((data, eof)) => {
            if data.len() > 0xffff_ffff {
                return Err(RpcError::Unencodable);
            }
            let res = READ3resok {
                file_attributes: post_op(attr),
                count: data.len() as u32,
                eof,
                data,
            };
            let mut body = status_body(nfsstat3::NFS3_OK);
            res.serialize(&mut body);
            Ok(body)
        },
    }
}

/// What the file system said of its files while a READ was handled.
pub struct ReadAnswers {
    /// The attributes of the file.
    pub attr: Result<fattr3, nfsstat3>,
    /// The bytes that were read, and whether they reach the end of the file.
    pub read: Result<(Seq<u8>, bool), nfsstat3>,
}

/// What READ does with a request. A handle that does not resolve is
/// answered with the status of that and no attributes; every other with
/// [`read_result`].
pub open spec fn read_outcome(
    xid: u32,
    input: Seq<u8>,
    fs: Served,
    a: ReadAnswers,
) -> Outcome {
    match READ3args::parse(input, 0) {
        None => Err(RpcError::Decode),
        Some((args, _)) => match resolve_handle(fs.generation, args.file) {
            Err(stat) => Ok(result_reply(xid, refusal_attr(stat))),
            Ok(_) => match read_result(a.attr, a.read) {
                Ok(body) => Ok(result_reply(xid, body)),
                Err(e) => Err(e),
            },
        },
    }
}

/// Handles a READ call: resolves the handle, asks for the attributes of
/// the file, reads the range that the client names, and replies what
/// [`read_outcome`] gives.
pub fn nfsproc3_read<V: NFSFileSystem>(
    xid: u32,
    input: &[u8],
    output: &mut Vec<u8>,
    context: &Context<V>,
) -> (r: Result<(), RpcError>)
    ensures
        exists|a: ReadAnswers|
            handled(
                old(output)@,
                final(output)@,
                r,
                #[trigger] read_outcome(xid, input@, served(&context.vfs), a),
            ),
        match READ3args::parse(input@, 0) {
            Some((args, _)) => match resolve_handle(context.vfs.generation_of(), args.file) {
                Err(stat) => final(output)@ == old(output)@ + result_reply(
                    xid,
                    refusal_attr(stat),
                ),
                Ok(_) => true,
            },
            None => true,
        },
        r == Err::<(), RpcError>(RpcError::Decode) <==> READ3args::parse(input@, 0) is None,
        r is Ok ==> answers_call(old(output)@, final(output)@, xid),
        r is Err ==> final(output)@ == old(output)@,
{
    let ghost fs = served(&context.vfs);
    let ghost mut a = ReadAnswers {
        attr: Err(nfsstat3::NFS3_OK),
        read: Err(nfsstat3::NFS3_OK),
    };
    let args = match READ3args::deserialize(input, 0) {
        Ok((args, _)) => args,
        Err(_) => {
            assert(handled(
                old(output)@,
                output@,
                Err::<(), RpcError>(RpcError::Decode),
                read_outcome(xid, input@, fs, a),
            ));
            return Err(RpcError::Decode);
        },
    };
    let body = match context.vfs.fh_to_id(&args.file) {
        Err(stat) => refuse_attr(stat),
        Ok(id) => {
            let attr = context.vfs.getattr(id);
            let read = context.vfs.read(id, args.offset, args.count);
            proof {
                a.attr = attr;
                a.read = read_view(read);
            }
            match read_body(&attr, read) {
                Ok(body) => body,
                Err(e) => {
                    assert(handled(
                        old(output)@,
                        output@,
                        Err::<(), RpcError>(RpcError::Unencodable),
                        read_outcome(xid, input@, fs, a),
                    ));
                    return Err(e);
                },
            }
        },
    };
    send_result(xid, &body, output);
    assert(handled(
        old(output)@,
        output@,
        Ok::<(), RpcError>(()),
        read_outcome(xid, input@, fs, a),
    ));
    Ok(())
}

} // verus!
