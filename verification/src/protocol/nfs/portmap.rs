//! The port mapper, version 2, as far as a client needs it to find the
//! server: every program is reported on the port of the server itself.

use crate::protocol::rpc::{
    answers_call, handled, result_reply, send_message, Context, Outcome, RpcError,
};
use crate::protocol::xdr::portmap::{PortmapProgram, VERSION};
use crate::protocol::xdr::rpc::{
    accept_body, accepted_msg, call_body, mismatch_info, proc_unavail_reply_message,
    prog_mismatch_reply_message, rpc_msg,
};
use crate::vfs::NFSFileSystem;
use vstd::prelude::*;

pub mod get_port;
pub mod null;

pub use get_port::pmapproc_getport;
pub use null::pmapproc_null;

verus! {

/// What the port mapper does with a call. A version other than 2 is
/// answered with the version that is served; a procedure other than
/// NULL and GETPORT, with `PROC_UNAVAIL`.
pub open spec fn portmap_outcome(
    xid: u32,
    vers: u32,
    proc: u32,
    input: Seq<u8>,
    local_port: u16,
) -> Outcome {
    if vers != VERSION {
        Ok(
            rpc_msg::wire(
                accepted_msg(
                    xid,
                    accept_body::PROG_MISMATCH(mismatch_info { low: VERSION, high: VERSION }),
                ),
            ),
        )
    } else if proc == 0 {
        Ok(result_reply(xid, Seq::empty()))
    } else if proc == 3 {
        get_port::getport_outcome(xid, input, local_port)
    } else {
        Ok(rpc_msg::wire(accepted_msg(xid, accept_body::PROC_UNAVAIL)))
    }
}

/// Handles a call to the port mapper.
pub fn handle_portmap<V: NFSFileSystem>(
    xid: u32,
    call: &call_body,
    input: &[u8],
    output: &mut Vec<u8>,
    context: &Context<V>,
) -> (r: Result<(), RpcError>)
    ensures
        handled(
            old(output)@,
            final(output)@,
            r,
            portmap_outcome(xid, call.vers, call.proc, input@, context.local_port),
        ),
        r is Ok ==> answers_call(old(output)@, final(output)@, xid),
{
    if call.vers != VERSION {
        send_message(&prog_mismatch_reply_message(xid, VERSION), output);
        return Ok(());
    }
    let procedure = match PortmapProgram::from_u32(call.proc) {
        Some(p) => p,
        None => PortmapProgram::INVALID,
    };
    match procedure {
        PortmapProgram::PMAPPROC_NULL => pmapproc_null(xid, input, output),
        PortmapProgram::PMAPPROC_GETPORT => pmapproc_getport(xid, input, output, context),
        _ => {
            send_message(&proc_unavail_reply_message(xid), output);
            Ok(())
        },
    }
}

} // verus!
