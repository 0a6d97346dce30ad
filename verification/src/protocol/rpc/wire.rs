//! Records on a byte stream, and what the server does with a record.
//!
//! A message travels as a record: one or more fragments, each with a
//! header of four bytes in front that gives its length in the low 31
//! bits and says in the top bit whether it is the last (RFC 1057,
//! section 10). The functions here work on bytes that were read from a
//! connection, and produce the bytes to write to it.

use crate::protocol::nfs::mount::{handle_mount, mount_handled};
use crate::protocol::nfs::portmap::{handle_portmap, portmap_outcome};
use crate::protocol::nfs::v3::{handle_nfs, nfs_handled};
use crate::protocol::rpc::{
    answers_call, handled, send_message, Context, RpcError, TransactionTracker,
};
use crate::protocol::rpc::transaction_tracker::{marked_recently, marks_after};
use crate::protocol::xdr::{
    decode_u32, encode_u32, holds_at, lemma_concat_assoc, lemma_holds_at_bounds,
    lemma_holds_at_concat, lemma_roundtrip_u32, mount, nfs3, parse_u32, portmap, u32_wire,
    DecodeError,
};
use crate::protocol::xdr::rpc::{
    accept_body, accepted_msg, auth_flavor, auth_unix, auth_unixView, call_body, call_bodyView,
    denied_msg, prog_unavail_reply_message, rpc_body, rpc_bodyView, rpc_msg, rpc_vers_mismatch,
};
use crate::vfs::{served, NFSFileSystem, Served};
use vstd::prelude::*;
use vstd::slice::slice_subrange;

verus! {

// ---------------------------------------------------------------------
// fragments
// ---------------------------------------------------------------------

/// The largest number of bytes in a fragment.
pub const MAX_FRAGMENT_SIZE: usize = 0x7fff_ffff;

/// The header of a fragment of `length` bytes.
pub open spec fn fragment_header(length: int, is_last: bool) -> u32 {
    if is_last {
        (length + 0x8000_0000) as u32
    } else {
        length as u32
    }
}

/// Whether a header marks the last fragment of a record.
pub open spec fn header_is_last(header: u32) -> bool {
    header >= 0x8000_0000
}

/// The length that a header gives.
pub open spec fn header_length(header: u32) -> int {
    header as int % 0x8000_0000
}

/// Takes a header apart: whether the fragment is the last of its record,
/// and its length.
pub fn split_fragment_header(header: u32) -> (r: (bool, usize))
    ensures
        r.0 == header_is_last(header),
        r.1 == header_length(header),
{
    let is_last = (header & 0x8000_0000) > 0;
    let length = header & 0x7fff_ffff;
    assert(((header & 0x8000_0000u32) > 0) == (header >= 0x8000_0000u32)) by (bit_vector);
    assert(header & 0x7fff_ffffu32 == header % 0x8000_0000u32) by (bit_vector);
    (is_last, length as usize)
}

/// The header of a fragment of `length` bytes.
pub fn make_fragment_header(length: usize, is_last: bool) -> (header: u32)
    requires
        length <= MAX_FRAGMENT_SIZE,
    ensures
        header == fragment_header(length as int, is_last),
        header_is_last(header) == is_last,
        header_length(header) == length,
{
    if is_last {
        length as u32 + 0x8000_0000
    } else {
        length as u32
    }
}

/// What stands at `at`: a fragment that is all there, as whether it is
/// the last, its payload, and where it ends.
pub open spec fn parse_fragment(s: Seq<u8>, at: int) -> Option<(bool, Seq<u8>, int)> {
    match parse_u32(s, at) {
        None => None,
        Some((header, start)) => if start + header_length(header) <= s.len() {
            Some(
                (
                    header_is_last(header),
                    s.subrange(start, start + header_length(header)),
                    start + header_length(header),
                ),
            )
        } else {
            None
        },
    }
}

/// Reads the fragment at `at` and appends its payload to `append_to`.
/// Returns whether the fragment is the last of its record, and where it
/// ends. Nothing is appended where the fragment is not all there.
pub fn read_fragment(socket: &[u8], at: usize, append_to: &mut Vec<u8>) -> (r: Result<
    (bool, usize),
    DecodeError,
>)
    ensures
        match parse_fragment(socket@, at as int) {
            Some((is_last, payload, end)) => r matches Ok(p) && p.0 == is_last && p.1 == end
                && final(append_to)@ == old(append_to)@ + payload,
            None => r is Err && final(append_to)@ == old(append_to)@,
        },
{
    let (header, start) = decode_u32(socket, at)?;
    let (is_last, length) = split_fragment_header(header);
    if socket.len() - start < length {
        return Err(DecodeError {  });
    }
    append_to.extend_from_slice(slice_subrange(socket, start, start + length));
    assert(append_to@ =~= old(append_to)@ + socket@.subrange(start as int, start + length));
    Ok((is_last, start + length))
}

/// A record as it goes over the wire: split into fragments of at most
/// [`MAX_FRAGMENT_SIZE`] bytes, each behind its header, the last one
/// marked. An empty record takes no bytes.
pub open spec fn framed(buf: Seq<u8>) -> Seq<u8>
    decreases buf.len(),
{
    if buf.len() == 0 {
        Seq::empty()
    } else if buf.len() <= MAX_FRAGMENT_SIZE {
        u32_wire(fragment_header(buf.len() as int, true)) + buf
    } else {
        u32_wire(fragment_header(MAX_FRAGMENT_SIZE as int, false)) + buf.subrange(
            0,
            MAX_FRAGMENT_SIZE as int,
        ) + framed(buf.subrange(MAX_FRAGMENT_SIZE as int, buf.len() as int))
    }
}

/// The record that the fragments from `at` on make up, and where the
/// last of them ends.
pub open spec fn parse_record(s: Seq<u8>, at: int) -> Option<(Seq<u8>, int)>
    decreases s.len() - at,
{
    match parse_fragment(s, at) {
        None => None,
        Some((is_last, payload, end)) => if is_last {
            Some((payload, end))
        } else if at < end {
            match parse_record(s, end) {
                None => None,
                Some((rest, last_end)) => Some((payload + rest, last_end)),
            }
        } else {
            None
        },
    }
}

/// A record comes back from its fragments: wherever the bytes of a
/// record that is not empty stand in a stream, reading fragments there
/// up to the one that is marked gives the record, and ends right behind
/// it.
pub proof fn lemma_record_roundtrip(buf: Seq<u8>, s: Seq<u8>, at: int)
    requires
        buf.len() > 0,
        holds_at(s, at, framed(buf)),
    ensures
        parse_record(s, at) == Some((buf, at + framed(buf).len())),
    decreases buf.len(),
{
    if buf.len() <= MAX_FRAGMENT_SIZE {
        let header = fragment_header(buf.len() as int, true);
        lemma_holds_at_concat(s, at, u32_wire(header), buf);
        lemma_roundtrip_u32(header, s, at);
        lemma_holds_at_bounds(s, at + 4, buf);
        assert(s.subrange(at + 4, at + 4 + buf.len()) == buf) by {
            reveal(holds_at);
        }
    } else {
        let header = fragment_header(MAX_FRAGMENT_SIZE as int, false);
        let chunk = buf.subrange(0, MAX_FRAGMENT_SIZE as int);
        let rest = buf.subrange(MAX_FRAGMENT_SIZE as int, buf.len() as int);
        lemma_holds_at_concat(s, at, u32_wire(header) + chunk, framed(rest));
        lemma_holds_at_concat(s, at, u32_wire(header), chunk);
        lemma_roundtrip_u32(header, s, at);
        lemma_holds_at_bounds(s, at + 4, chunk);
        assert(s.subrange(at + 4, at + 4 + chunk.len()) == chunk) by {
            reveal(holds_at);
        }
        lemma_record_roundtrip(rest, s, at + 4 + MAX_FRAGMENT_SIZE);
        assert(chunk + rest =~= buf);
    }
}

/// Appends a record to what goes out on a connection.
pub fn write_fragment(socket: &mut Vec<u8>, buf: &[u8])
    ensures
        final(socket)@ == old(socket)@ + framed(buf@),
{
    let mut offset: usize = 0;
    let n = buf.len();
    assert(buf@.subrange(0, n as int) =~= buf@);
    assert(socket@ =~= old(socket)@ + Seq::<u8>::empty());
    while offset < n
        invariant
            offset <= n,
            n == buf@.len(),
            socket@ + framed(buf@.subrange(offset as int, n as int)) == old(socket)@ + framed(buf@),
        decreases n - offset,
    {
        let remaining = n - offset;
        let fragment_size = if remaining < MAX_FRAGMENT_SIZE {
            remaining
        } else {
            MAX_FRAGMENT_SIZE
        };
        let is_last = fragment_size == remaining;
        let header = make_fragment_header(fragment_size, is_last);
        let ghost before = socket@;
        let ghost rest = buf@.subrange(offset as int, n as int);
        let ghost chunk = buf@.subrange(offset as int, offset + fragment_size);
        let ghost tail = buf@.subrange(offset + fragment_size, n as int);
        encode_u32(header, socket);
        socket.extend_from_slice(slice_subrange(buf, offset, offset + fragment_size));
        proof {
            assert(socket@ =~= before + u32_wire(header) + chunk);
            assert(rest.subrange(0, fragment_size as int) =~= chunk);
            assert(rest.subrange(fragment_size as int, rest.len() as int) =~= tail);
            if is_last {
                assert(rest =~= chunk);
                assert(framed(tail) =~= Seq::<u8>::empty());
                assert(framed(rest) == u32_wire(header) + chunk);
                assert(before + framed(rest) =~= socket@ + framed(tail));
            } else {
                assert(framed(rest) == u32_wire(header) + chunk + framed(tail));
                lemma_concat_assoc(before, u32_wire(header) + chunk, framed(tail));
                lemma_concat_assoc(before, u32_wire(header), chunk);
            }
        }
        offset += fragment_size;
    }
    assert(framed(buf@.subrange(n as int, n as int)) =~= Seq::<u8>::empty());
    assert(socket@ + Seq::<u8>::empty() =~= socket@);
}

// ---------------------------------------------------------------------
// records
// ---------------------------------------------------------------------

/// Puts the fragments of a connection together into records.
pub struct SocketMessageHandler<V: NFSFileSystem> {
    /// The fragments of the record that is coming in.
    pub cur_fragment: Vec<u8>,
    /// The state of the connection.
    pub context: Context<V>,
}

impl<V: NFSFileSystem> SocketMessageHandler<V> {
    /// A handler for a connection on which nothing has come in.
    pub fn new(context: Context<V>) -> (r: Self)
        ensures
            r.cur_fragment@ == Seq::<u8>::empty(),
            r.context == context,
    {
        SocketMessageHandler { cur_fragment: Vec::new(), context }
    }

    /// Reads the fragment at `at`. With the last fragment of a record
    /// the record is handed out, and the next fragment starts a new one.
    /// Returns the record if there is one, and where the fragment ends.
    /// A fragment that is not all there leaves the handler as it is.
    pub fn read(&mut self, socket: &[u8], at: usize) -> (r: Result<
        (Option<Vec<u8>>, usize),
        DecodeError,
    >)
        ensures
            final(self).context == old(self).context,
            match parse_fragment(socket@, at as int) {
                Some((is_last, payload, end)) => r matches Ok(p) && p.1 == end && if is_last {
                    &&& p.0 matches Some(record)
                    &&& record@ == old(self).cur_fragment@ + payload
                    &&& final(self).cur_fragment@ == Seq::<u8>::empty()
                } else {
                    &&& p.0 is None
                    &&& final(self).cur_fragment@ == old(self).cur_fragment@ + payload
                },
                None => r is Err && final(self).cur_fragment@ == old(self).cur_fragment@,
            },
    {
        let (is_last, end) = read_fragment(socket, at, &mut self.cur_fragment)?;
        if is_last {
            let mut record: Vec<u8> = Vec::new();
            core::mem::swap(&mut record, &mut self.cur_fragment);
            Ok((Some(record), end))
        } else {
            Ok((None, end))
        }
    }
}

// ---------------------------------------------------------------------
// requests
// ---------------------------------------------------------------------

/// The program number of NFS access control lists, which are not served.
const NFS_ACL_PROGRAM: u32 = 100227;

/// The program number of NFS id mapping, which is not served.
const NFS_ID_MAP_PROGRAM: u32 = 100270;

/// The program number of NFS metadata, which is not served.
const NFS_METADATA_PROGRAM: u32 = 200024;

/// What became of a request.
#[derive(Copy, Clone, Debug, PartialEq, Eq, Structural)]
pub struct Handled {
    /// Whether a reply was appended to the output. A repetition of a
    /// request that was carried out gets none.
    pub replied: bool,
    /// What to tell whoever wants to hear of mounts: `true` for a mount,
    /// `false` for an unmount.
    pub mount_signal: Option<bool>,
}

/// The credentials in force after a call: those of the call where it
/// brings credentials of the flavor `AUTH_UNIX` that can be read, the
/// ones before it otherwise.
pub open spec fn credentials(call: call_bodyView, current: auth_unixView) -> auth_unixView {
    if call.cred.flavor == auth_flavor::AUTH_UNIX {
        match auth_unix::parse(call.cred.body, 0) {
            Some((auth, _)) => auth,
            None => current,
        }
    } else {
        current
    }
}

/// The result of a handler that hands back nothing.
pub open spec fn without_signal(r: Result<Handled, RpcError>) -> Result<(), RpcError> {
    match r {
        Ok(_) => Ok(()),
        Err(e) => Err(e),
    }
}

/// The result of a handler that hands back a signal.
pub open spec fn with_signal(r: Result<Handled, RpcError>) -> Result<Option<bool>, RpcError> {
    match r {
        Ok(h) => Ok(h.mount_signal),
        Err(e) => Err(e),
    }
}

/// The call went to the program that it names: NFS, the port mapper or
/// MOUNT. Every other program is answered with `PROG_UNAVAIL`.
pub open spec fn routed(
    xid: u32,
    call: call_bodyView,
    args: Seq<u8>,
    export_name: Seq<char>,
    local_port: u16,
    fs: Served,
    before: Seq<u8>,
    after: Seq<u8>,
    r: Result<Handled, RpcError>,
) -> bool {
    &&& r matches Ok(h) ==> h.replied
    &&& if call.prog == nfs3::PROGRAM {
        &&& nfs_handled(xid, call.vers, call.proc, args, fs, before, after, without_signal(r))
        &&& r matches Ok(h) ==> h.mount_signal is None
    } else if call.prog == portmap::PROGRAM {
        &&& handled(
            before,
            after,
            r,
            portmap_outcome(xid, call.vers, call.proc, args, local_port),
        )
        &&& r matches Ok(h) ==> h.mount_signal is None
    } else if call.prog == mount::PROGRAM {
        mount_handled(
            xid,
            call.vers,
            call.proc,
            args,
            export_name,
            fs,
            before,
            after,
            with_signal(r),
        )
    } else {
        &&& handled(
            before,
            after,
            r,
            Ok(rpc_msg::wire(accepted_msg(xid, accept_body::PROG_UNAVAIL))),
        )
        &&& r matches Ok(h) ==> h.mount_signal is None
    }
}

/// What is to be done with a record, once its envelope is read.
#[derive(Clone, Debug, PartialEq, Eq)]
pub enum Begun {
    /// Nothing more: the call was denied, and the denial is in the
    /// output.
    Denied,
    /// Nothing: the call is a repetition of one that was carried out of
    /// late.
    Repeated,
    /// The call is to be answered. Its arguments start at `args`.
    Call { xid: u32, call: call_body, args: usize },
}

/// Reads the envelope of a record, takes note of the credentials of the
/// call, and says what is to be done with it.
///
/// A record that does not decode, or that holds a reply, is an error. A
/// call of another RPC version than 2 is denied. A call that was
/// carried out less than the retention ago, by transaction id and
/// address of the client, is a repetition. Every other call is to be
/// answered.
pub fn begin_rpc<V: NFSFileSystem>(
    input: &[u8],
    output: &mut Vec<u8>,
    context: &mut Context<V>,
    tracker: &TransactionTracker,
    now: u64,
) -> (r: Result<Begun, RpcError>)
    ensures
        final(context).local_port == old(context).local_port,
        final(context).client_addr == old(context).client_addr,
        final(context).vfs == old(context).vfs,
        final(context).export_name == old(context).export_name,
        match rpc_msg::parse(input@, 0) {
            None => {
                &&& r == Err::<Begun, RpcError>(RpcError::Decode)
                &&& final(output)@ == old(output)@
                &&& final(context).auth@ == old(context).auth@
            },
            Some((msg, end)) => match msg.body {
                rpc_bodyView::REPLY(_) => {
                    &&& r == Err::<Begun, RpcError>(RpcError::NotACall)
                    &&& final(output)@ == old(output)@
                    &&& final(context).auth@ == old(context).auth@
                },
                rpc_bodyView::CALL(call) => {
                    &&& final(context).auth@ == credentials(call, old(context).auth@)
                    &&& if call.rpcvers != 2 {
                        &&& r == Ok::<Begun, RpcError>(Begun::Denied)
                        &&& final(output)@ == old(output)@ + rpc_msg::wire(denied_msg(msg.xid))
                        &&& answers_call(old(output)@, final(output)@, msg.xid)
                    } else if marked_recently(
                        tracker.marks(),
                        tracker.retention(),
                        msg.xid,
                        old(context).client_addr@,
                        now,
                    ) {
                        &&& r == Ok::<Begun, RpcError>(Begun::Repeated)
                        &&& final(output)@ == old(output)@
                    } else {
                        &&& r matches Ok(Begun::Call { xid, call: c, args })
                        &&& xid == msg.xid
                        &&& c@ == call
                        &&& args == end
                        &&& end <= input@.len()
                        &&& final(output)@ == old(output)@
                    }
                },
            },
        },
{
    let (msg, end) = match rpc_msg::deserialize(input, 0) {
        Ok(p) => p,
        Err(_) => {
            return Err(RpcError::Decode);
        },
    };
    let xid = msg.xid;
    let call = match msg.body {
        rpc_body::CALL(call) => call,
        rpc_body::REPLY(_) => {
            return Err(RpcError::NotACall);
        },
    };
    match call.cred.flavor {
        auth_flavor::AUTH_UNIX => {
            match auth_unix::deserialize(call.cred.body.as_slice(), 0) {
                Ok((auth, _)) => {
                    context.auth = auth;
                },
                Err(_) => {},
            }
        },
        _ => {},
    }
    if call.rpcvers != 2 {
        send_message(&rpc_vers_mismatch(xid), output);
        return Ok(Begun::Denied);
    }
    if tracker.is_retransmission(xid, &context.client_addr, now) {
        return Ok(Begun::Repeated);
    }
    Ok(Begun::Call { xid, call, args: end })
}

/// Answers a call: has the program that it names answer it.
pub fn answer_call<V: NFSFileSystem>(
    xid: u32,
    call: &call_body,
    args: &[u8],
    output: &mut Vec<u8>,
    context: &Context<V>,
) -> (r: Result<Handled, RpcError>)
    ensures
        routed(
            xid,
            call@,
            args@,
            context.export_name@,
            context.local_port,
            served(&context.vfs),
            old(output)@,
            final(output)@,
            r,
        ),
        r is Ok ==> answers_call(old(output)@, final(output)@, xid),
        r is Err ==> final(output)@ == old(output)@,
{
    if call.prog == nfs3::PROGRAM {
        match handle_nfs(xid, call, args, output, context) {
            Ok(_) => Ok(Handled { replied: true, mount_signal: None }),
            Err(e) => Err(e),
        }
    } else if call.prog == portmap::PROGRAM {
        match handle_portmap(xid, call, args, output, context) {
            Ok(_) => Ok(Handled { replied: true, mount_signal: None }),
            Err(e) => Err(e),
        }
    } else if call.prog == mount::PROGRAM {
        match handle_mount(xid, call, args, output, context) {
            Ok(signal) => Ok(Handled { replied: true, mount_signal: signal }),
            Err(e) => Err(e),
        }
    } else if call.prog == NFS_ACL_PROGRAM || call.prog == NFS_ID_MAP_PROGRAM || call.prog
        == NFS_METADATA_PROGRAM {
        // Clients probe for these. That they are missing is no fault.
        send_message(&prog_unavail_reply_message(xid), output);
        Ok(Handled { replied: true, mount_signal: None })
    } else {
        send_message(&prog_unavail_reply_message(xid), output);
        Ok(Handled { replied: true, mount_signal: None })
    }
}

/// Handles one record from its first byte to its reply: [`begin_rpc`],
/// then [`answer_call`] for a call that is to be answered, then the mark
/// in the tracker.
///
/// A record that does not decode, or that holds a reply, is an error. A
/// call of another RPC version than 2 is denied. A call that was carried
/// out less than the retention ago, by transaction id and address of the
/// client, gets no reply and changes nothing. Every other call is marked
/// as carried out at `now`, whether it was answered or ended in an
/// error.
pub fn handle_rpc<V: NFSFileSystem>(
    input: &[u8],
    output: &mut Vec<u8>,
    context: &mut Context<V>,
    tracker: &mut TransactionTracker,
    now: u64,
) -> (r: Result<Handled, RpcError>)
    ensures
        final(context).local_port == old(context).local_port,
        final(context).client_addr == old(context).client_addr,
        final(context).vfs == old(context).vfs,
        final(context).export_name == old(context).export_name,
        final(tracker).retention() == old(tracker).retention(),
        match rpc_msg::parse(input@, 0) {
            None => {
                &&& r == Err::<Handled, RpcError>(RpcError::Decode)
                &&& final(output)@ == old(output)@
                &&& final(tracker).marks() == old(tracker).marks()
                &&& final(context).auth@ == old(context).auth@
            },
            Some((msg, end)) => match msg.body {
                rpc_bodyView::REPLY(_) => {
                    &&& r == Err::<Handled, RpcError>(RpcError::NotACall)
                    &&& final(output)@ == old(output)@
                    &&& final(tracker).marks() == old(tracker).marks()
                    &&& final(context).auth@ == old(context).auth@
                },
                rpc_bodyView::CALL(call) => {
                    &&& final(context).auth@ == credentials(call, old(context).auth@)
                    &&& (r matches Ok(h) && h.replied) ==> answers_call(
                        old(output)@,
                        final(output)@,
                        msg.xid,
                    )
                    &&& !(r matches Ok(h) && h.replied) ==> final(output)@ == old(output)@
                    &&& if call.rpcvers != 2 {
                        &&& r == Ok::<Handled, RpcError>(
                            Handled { replied: true, mount_signal: None },
                        )
                        &&& final(output)@ == old(output)@ + rpc_msg::wire(denied_msg(msg.xid))
                        &&& final(tracker).marks() == old(tracker).marks()
                    } else if marked_recently(
                        old(tracker).marks(),
                        old(tracker).retention(),
                        msg.xid,
                        old(context).client_addr@,
                        now,
                    ) {
                        &&& r == Ok::<Handled, RpcError>(
                            Handled { replied: false, mount_signal: None },
                        )
                        &&& final(output)@ == old(output)@
                        &&& final(tracker).marks() == old(tracker).marks()
                    } else {
                        &&& final(tracker).marks() == marks_after(
                            old(tracker).marks(),
                            old(tracker).retention(),
                            msg.xid,
                            old(context).client_addr@,
                            now,
                        )
                        &&& routed(
                            msg.xid,
                            call,
                            input@.subrange(end, input@.len() as int),
                            old(context).export_name@,
                            old(context).local_port,
                            served(&old(context).vfs),
                            old(output)@,
                            final(output)@,
                            r,
                        )
                    }
                },
            },
        },
{
    match begin_rpc(input, output, context, tracker, now) {
        Err(e) => Err(e),
        Ok(Begun::Denied) => Ok(Handled { replied: true, mount_signal: None }),
        Ok(Begun::Repeated) => Ok(Handled { replied: false, mount_signal: None }),
        Ok(Begun::Call { xid, call, args }) => {
            let res = answer_call(
                xid,
                &call,
                slice_subrange(input, args, input.len()),
                output,
                context,
            );
            tracker.mark_processed(xid, &context.client_addr, now);
            res
        },
    }
}

} // verus!
