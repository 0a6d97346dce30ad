//! PMAPPROC_GETPORT: the port of a program.

use crate::protocol::rpc::{
    answers_call, handled, result_reply, send_result, Context, Outcome, RpcError,
};
use crate::protocol::xdr::{encode_u32, u32_wire};
use crate::protocol::xdr::portmap::mapping;
use crate::vfs::NFSFileSystem;
use vstd::prelude::*;

verus! {

/// What GETPORT does with a request: whatever program, version and
/// protocol the client asks for, the answer is the port on which the
/// server listens.
pub open spec fn getport_outcome(xid: u32, input: Seq<u8>, local_port: u16) -> Outcome {
    match mapping::parse(input, 0) {
        None => Err(RpcError::Decode),
        Some(_) => Ok(result_reply(xid, u32_wire(local_port as u32))),
    }
}

/// Handles a GETPORT call: reads the mapping that is asked about, and
/// answers with the port of the server.
pub fn pmapproc_getport<V: NFSFileSystem>(
    xid: u32,
    input: &[u8],
    output: &mut Vec<u8>,
    context: &Context<V>,
) -> (r: Result<(), RpcError>)
    ensures
        handled(
            old(output)@,
            final(output)@,
            r,
            getport_outcome(xid, input@, context.local_port),
        ),
        r is Ok ==> answers_call(old(output)@, final(output)@, xid),
{
    match mapping::deserialize(input, 0) {
        Ok(_) => {},
        Err(_) => {
            return Err(RpcError::Decode);
        },
    }
    let mut body: Vec<u8> = Vec::new();
    encode_u32(context.local_port as u32, &mut body);
    assert(body@ =~= u32_wire(context.local_port as u32));
    send_result(xid, &body, output);
    Ok(())
}

} // verus!
