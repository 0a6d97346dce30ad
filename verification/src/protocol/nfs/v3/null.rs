//! NULL: does nothing, and says so.

use crate::protocol::rpc::{answers_call, result_reply, send_result, RpcError};
use vstd::prelude::*;

verus! {

/// Replies that the call was carried out, with an empty result. The
/// arguments are not looked at.
pub fn nfsproc3_null(xid: u32, input: &[u8], output: &mut Vec<u8>) -> (r: Result<(), RpcError>)
    ensures
        r is Ok,
        final(output)@ == old(output)@ + result_reply(xid, Seq::empty()),
        answers_call(old(output)@, final(output)@, xid),
{
    let body: Vec<u8> = Vec::new();
    send_result(xid, &body, output);
    Ok(())
}

} // verus!
