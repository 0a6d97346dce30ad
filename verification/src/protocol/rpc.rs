//! What every procedure handler shares: the state of a connection, the
//! way a handler ends, and the envelope around its result.

use crate::protocol::xdr::{
    lemma_concat_assoc, lemma_holds_at_concat, lemma_holds_at_self, opaque_encodable, u32_wire,
};
use crate::protocol::xdr::rpc::{
    accept_body, accepted_msg, lemma_success_reply_len, lemma_wire_starts_with_xid,
    make_success_reply, rpc_msg, rpc_msgView, success_reply_wire,
};
use vstd::prelude::*;

pub mod context;
pub mod transaction_tracker;
pub mod wire;

pub use context::Context;
pub use transaction_tracker::TransactionTracker;
pub use wire::{
    answer_call, begin_rpc, handle_rpc, write_fragment, Begun, Handled, SocketMessageHandler,
};

verus! {

/// Why a request got no reply.
#[derive(Copy, Clone, Debug, PartialEq, Eq, Structural)]
pub enum RpcError {
    /// The request ended early, or held a length or a discriminant that
    /// cannot be.
    Decode,
    /// The message was a reply, not a call.
    NotACall,
    /// The file system handed back data that is too long for the wire.
    Unencodable,
}

/// What a handler is to do: send a reply, or give up with an error
/// and send nothing.
pub type Outcome = Result<Seq<u8>, RpcError>;

/// The handler did what `outcome` says: it appended the reply to the
/// output and returned `Ok`, or left the output alone and returned the
/// error.
pub open spec fn handled<T>(
    before: Seq<u8>,
    after: Seq<u8>,
    r: Result<T, RpcError>,
    outcome: Outcome,
) -> bool {
    match outcome {
        Ok(reply) => r is Ok && after == before + reply,
        Err(e) => r == Err::<T, RpcError>(e) && after == before,
    }
}

/// `after` is `before` with something behind it that starts with the
/// transaction id `xid`.
pub open spec fn answers_call(before: Seq<u8>, after: Seq<u8>, xid: u32) -> bool {
    &&& before.len() + 4 <= after.len()
    &&& after.subrange(0, before.len() as int) == before
    &&& after.subrange(before.len() as int, before.len() as int + 4) == u32_wire(xid)
}

/// A message appended to a buffer answers the call whose transaction id
/// it carries, whatever follows it.
pub proof fn lemma_message_answers_call(before: Seq<u8>, m: rpc_msgView, rest: Seq<u8>)
    ensures
        answers_call(before, before + (rpc_msg::wire(m) + rest), m.xid),
{
    lemma_wire_starts_with_xid(m);
    let w = rpc_msg::wire(m);
    let after = before + (w + rest);
    assert(after.subrange(0, before.len() as int) =~= before);
    assert(after.subrange(before.len() as int, before.len() as int + 4) =~= w.subrange(0, 4));
}

/// The reply that carries the result `body` of a call that was carried
/// out.
pub open spec fn result_reply(xid: u32, body: Seq<u8>) -> Seq<u8> {
    success_reply_wire(xid) + body
}

/// A reply decodes as a reply to the call whose transaction id it was
/// built with, whatever result it carries.
pub proof fn lemma_result_reply_keeps_xid(xid: u32, body: Seq<u8>)
    ensures
        rpc_msg::parse(result_reply(xid, body), 0) == Some(
            (accepted_msg(xid, accept_body::SUCCESS), 24int),
        ),
        accepted_msg(xid, accept_body::SUCCESS).xid == xid,
        accepted_msg(xid, accept_body::SUCCESS).body is REPLY,
{
    let msg = accepted_msg(xid, accept_body::SUCCESS);
    let reply = result_reply(xid, body);
    lemma_success_reply_len(xid);
    lemma_holds_at_self(reply);
    lemma_holds_at_concat(reply, 0, rpc_msg::wire(msg), body);
    assert(opaque_encodable(Seq::<u8>::empty()));
    assert(rpc_msg::encodable(msg));
    rpc_msg::lemma_roundtrip(msg, reply, 0);
}

/// Appends a message to the output.
pub fn send_message(msg: &rpc_msg, output: &mut Vec<u8>)
    requires
        rpc_msg::encodable(msg@),
    ensures
        final(output)@ == old(output)@ + rpc_msg::wire(msg@),
        answers_call(old(output)@, final(output)@, msg@.xid),
{
    msg.serialize(output);
    proof {
        lemma_message_answers_call(old(output)@, msg@, Seq::empty());
        assert(rpc_msg::wire(msg@) + Seq::<u8>::empty() =~= rpc_msg::wire(msg@));
    }
}

/// Appends the reply that carries the result `body`.
pub fn send_result(xid: u32, body: &Vec<u8>, output: &mut Vec<u8>)
    ensures
        final(output)@ == old(output)@ + result_reply(xid, body@),
        answers_call(old(output)@, final(output)@, xid),
{
    let msg = make_success_reply(xid);
    msg.serialize(output);
    output.extend_from_slice(body.as_slice());
    proof {
        let env = success_reply_wire(xid);
        assert(output@ =~= (old(output)@ + env) + body@);
        lemma_concat_assoc(old(output)@, env, body@);
        lemma_message_answers_call(old(output)@, accepted_msg(xid, accept_body::SUCCESS), body@);
    }
}

} // verus!
