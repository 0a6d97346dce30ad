//! The MOUNT program, version 3: how a client comes by the handle of
//! the exported directory.
//!
//! A handler cannot send on a channel. Where the program around the
//! server wants to hear of mounts, a handler hands back what to tell it:
//! `true` for a mount, `false` for an unmount.

use crate::protocol::rpc::{answers_call, handled, result_reply, send_message, Context, RpcError};
use crate::protocol::xdr::mount::{MountProgram, VERSION};
use crate::protocol::xdr::rpc::{
    accept_body, accepted_msg, call_body, mismatch_info, proc_unavail_reply_message,
    prog_mismatch_reply_message, rpc_msg,
};
use crate::vfs::{served, NFSFileSystem, Served};
use vstd::prelude::*;

pub mod export;
pub mod mnt;
pub mod null;
pub mod umnt;
pub mod umnt_all;

pub use export::mountproc3_export;
pub use mnt::mountproc3_mnt;
pub use null::mountproc3_null;
pub use umnt::mountproc3_umnt;
pub use umnt_all::mountproc3_umnt_all;

verus! {

/// The handler of a MOUNT call did what the procedure asks. A version
/// other than 3 is answered with the version that is served; a
/// procedure that is not offered, with `PROC_UNAVAIL`; neither is told
/// to anyone.
pub open spec fn mount_handled(
    xid: u32,
    vers: u32,
    proc: u32,
    input: Seq<u8>,
    export_name: Seq<char>,
    fs: Served,
    before: Seq<u8>,
    after: Seq<u8>,
    r: Result<Option<bool>, RpcError>,
) -> bool {
    if vers != VERSION {
        &&& handled(
            before,
            after,
            r,
            Ok(
                rpc_msg::wire(
                    accepted_msg(
                        xid,
                        accept_body::PROG_MISMATCH(mismatch_info { low: VERSION, high: VERSION }),
                    ),
                ),
            ),
        )
        &&& r == Ok::<Option<bool>, RpcError>(None)
    } else if proc == 0 {
        &&& handled(before, after, r, Ok(result_reply(xid, Seq::empty())))
        &&& r == Ok::<Option<bool>, RpcError>(None)
    } else if proc == 1 {
        exists|a: mnt::MntAnswers| #[trigger]
            mnt::mnt_handled(xid, export_name, input, fs, a, before, after, r)
    } else if proc == 3 {
        &&& handled(before, after, r, umnt::umnt_outcome(xid, input))
        &&& r is Ok ==> r == Ok::<Option<bool>, RpcError>(Some(false))
    } else if proc == 4 {
        &&& handled(before, after, r, Ok(umnt_all::umnt_all_reply(xid)))
        &&& r == Ok::<Option<bool>, RpcError>(Some(false))
    } else if proc == 5 {
        &&& handled(before, after, r, export::export_outcome(xid, export_name))
        &&& r is Ok ==> r == Ok::<Option<bool>, RpcError>(None)
    } else {
        &&& handled(
            before,
            after,
            r,
            Ok(rpc_msg::wire(accepted_msg(xid, accept_body::PROC_UNAVAIL))),
        )
        &&& r == Ok::<Option<bool>, RpcError>(None)
    }
}

/// Handles a call to the MOUNT program: has the handler of the procedure
/// answer it, and hands back what to tell of mounts.
pub fn handle_mount<V: NFSFileSystem>(
    xid: u32,
    call: &call_body,
    input: &[u8],
    output: &mut Vec<u8>,
    context: &Context<V>,
) -> (r: Result<Option<bool>, RpcError>)
    ensures
        mount_handled(
            xid,
            call.vers,
            call.proc,
            input@,
            context.export_name@,
            served(&context.vfs),
            old(output)@,
            final(output)@,
            r,
        ),
        r is Ok ==> answers_call(old(output)@, final(output)@, xid),
        r is Err ==> final(output)@ == old(output)@,
{
    if call.vers != VERSION {
        send_message(&prog_mismatch_reply_message(xid, VERSION), output);
        return Ok(None);
    }
    let procedure = match MountProgram::from_u32(call.proc) {
        Some(p) => p,
        None => MountProgram::INVALID,
    };
    match procedure {
        MountProgram::MOUNTPROC3_NULL => {
            let _ = mountproc3_null(xid, input, output);
            Ok(None)
        },
        MountProgram::MOUNTPROC3_MNT => mountproc3_mnt(xid, input, output, context),
        MountProgram::MOUNTPROC3_UMNT => mountproc3_umnt(xid, input, output),
        MountProgram::MOUNTPROC3_UMNTALL => mountproc3_umnt_all(xid, input, output),
        MountProgram::MOUNTPROC3_EXPORT => {
            match mountproc3_export(xid, input, output, context) {
                Ok(_) => Ok(None),
                Err(e) => Err(e),
            }
        },
        _ => {
            send_message(&proc_unavail_reply_message(xid), output);
            Ok(None)
        },
    }
}

} // verus!
