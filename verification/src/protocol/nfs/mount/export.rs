//! MOUNTPROC3_EXPORT: what the server exports.

use crate::protocol::rpc::{
    answers_call, handled, result_reply, send_result, Context, Outcome, RpcError,
};
use crate::protocol::xdr::{
    bool_wire, encode_bool, encode_opaque, opaque_encodable, opaque_fits, opaque_wire,
};
use crate::vfs::NFSFileSystem;
use vstd::prelude::*;
use vstd::string::StringSliceAdditionalSpecFns;

verus! {

/// The bytes of a text in UTF-8.
pub open spec fn text_bytes(text: Seq<char>) -> Seq<u8> {
    vstd::utf8::encode_utf8(text)
}

/// What EXPORT does with a request: it lists one export, the path under
/// which the file system is exported, open to every client.
pub open spec fn export_outcome(xid: u32, export_name: Seq<char>) -> Outcome {
    if opaque_encodable(text_bytes(export_name)) {
        Ok(
            result_reply(
                xid,
                bool_wire(true) + opaque_wire(text_bytes(export_name)) + bool_wire(false)
                    + bool_wire(false),
            ),
        )
    } else {
        Err(RpcError::Unencodable)
    }
}

/// Handles an EXPORT call. The arguments are not looked at.
pub fn mountproc3_export<V: NFSFileSystem>(
    xid: u32,
    input: &[u8],
    output: &mut Vec<u8>,
    context: &Context<V>,
) -> (r: Result<(), RpcError>)
    ensures
        handled(old(output)@, final(output)@, r, export_outcome(xid, context.export_name@)),
        r is Ok ==> answers_call(old(output)@, final(output)@, xid),
{
    let name = context.export_name.as_str().as_bytes();
    if !opaque_fits(name) {
        return Err(RpcError::Unencodable);
    }
    let mut body: Vec<u8> = Vec::new();
    // An entry follows.
    encode_bool(true, &mut body);
    assert(body@ =~= bool_wire(true));
    encode_opaque(name, &mut body);
    // No group follows: the export is open to all.
    encode_bool(false, &mut body);
    // No entry follows.
    encode_bool(false, &mut body);
    send_result(xid, &body, output);
    Ok(())
}

} // verus!
