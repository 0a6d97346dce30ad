//! MOUNTPROC3_UMNTALL: a client lets go of everything.

use crate::protocol::rpc::{answers_call, result_reply, send_result, RpcError};
use crate::protocol::xdr::mount::mountstat3;
use vstd::prelude::*;

verus! {

/// The reply to UMNTALL: `MNT3_OK`.
pub open spec fn umnt_all_reply(xid: u32) -> Seq<u8> {
    result_reply(xid, mountstat3::wire(mountstat3::MNT3_OK))
}

/// Answers the request, and hands back `false` to say that a client
/// unmounted. The arguments are not looked at.
pub fn mountproc3_umnt_all(xid: u32, input: &[u8], output: &mut Vec<u8>) -> (r: Result<
    Option<bool>,
    RpcError,
>)
    ensures
        r == Ok::<Option<bool>, RpcError>(Some(false)),
        final(output)@ == old(output)@ + umnt_all_reply(xid),
        answers_call(old(output)@, final(output)@, xid),
{
    let mut body: Vec<u8> = Vec::new();
    mountstat3::MNT3_OK.serialize(&mut body);
    assert(body@ =~= mountstat3::wire(mountstat3::MNT3_OK));
    send_result(xid, &body, output);
    Ok(Some(false))
}

} // verus!
