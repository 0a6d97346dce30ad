//! MOUNTPROC3_UMNT: a client lets go of a directory.

use crate::protocol::rpc::{answers_call, handled, result_reply, send_result, Outcome, RpcError};
use crate::protocol::xdr::{decode_opaque, parse_opaque};
use crate::protocol::xdr::mount::mountstat3;
use vstd::prelude::*;

verus! {

/// What UMNT does with a request: the server keeps no list of mounts, so
/// it reads the path and answers `MNT3_OK`.
pub open spec fn umnt_outcome(xid: u32, input: Seq<u8>) -> Outcome {
    match parse_opaque(input, 0) {
        None => Err(RpcError::Decode),
        Some(_) => Ok(result_reply(xid, mountstat3::wire(mountstat3::MNT3_OK))),
    }
}

/// Answers the request, and hands back `false` to say that a client
/// unmounted.
pub fn mountproc3_umnt(xid: u32, input: &[u8], output: &mut Vec<u8>) -> (r: Result<
    Option<bool>,
    RpcError,
>)
    ensures
        handled(old(output)@, final(output)@, r, umnt_outcome(xid, input@)),
        r is Ok ==> r == Ok::<Option<bool>, RpcError>(Some(false)),
        r is Ok ==> answers_call(old(output)@, final(output)@, xid),
{
    match decode_opaque(input, 0) {
        Ok(_) => {},
        Err(_) => {
            return Err(RpcError::Decode);
        },
    }
    let mut body: Vec<u8> = Vec::new();
    mountstat3::MNT3_OK.serialize(&mut body);
    assert(body@ =~= mountstat3::wire(mountstat3::MNT3_OK));
    send_result(xid, &body, output);
    Ok(Some(false))
}

} // verus!
