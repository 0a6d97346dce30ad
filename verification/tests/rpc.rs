//! Records, the tracker of repeated requests, and the dispatcher.

use nfsserve::protocol::rpc::wire::{
    make_fragment_header, read_fragment, split_fragment_header, MAX_FRAGMENT_SIZE,
};
use nfsserve::protocol::rpc::{
    handle_rpc, send_message, send_result, write_fragment, Context, Handled, RpcError,
    SocketMessageHandler, TransactionTracker,
};
use nfsserve::vfs::{handle_of_id, Capabilities, NFSFileSystem, ReadDirResult};
use nfsserve::xdr::mount::mountstat3;
use nfsserve::xdr::nfs3::{
    fattr3, fileid3, filename3, ftype3, nfspath3, nfsstat3, sattr3, specdata3,
};
use nfsserve::xdr::portmap::mapping;
use nfsserve::xdr::rpc::{
    auth_flavor, auth_unix, call_body, make_success_reply, opaque_auth,
    prog_mismatch_reply_message, prog_unavail_reply_message, proc_unavail_reply_message,
    rpc_body, rpc_msg, rpc_vers_mismatch,
};
use nfsserve::xdr::{decode_u32, encode_opaque, DecodeError};

/// A file system with a root directory and nothing in it.
struct Bare;

impl NFSFileSystem for Bare {
    fn generation(&self) -> u64 {
        77
    }

    fn capabilities(&self) -> Capabilities {
        Capabilities::ReadOnly
    }

    fn root_dir(&self) -> fileid3 {
        1
    }

    fn lookup(&self, _: fileid3, _: &filename3) -> Result<fileid3, nfsstat3> {
        Err(nfsstat3::NFS3ERR_NOENT)
    }

    fn getattr(&self, id: fileid3) -> Result<fattr3, nfsstat3> {
        if id == 1 {
            Ok(fattr3 { ftype: ftype3::NF3DIR, fileid: 1, ..fattr3::default() })
        } else {
            Err(nfsstat3::NFS3ERR_NOENT)
        }
    }

    fn setattr(&self, _: fileid3, _: sattr3) -> Result<fattr3, nfsstat3> {
        Err(nfsstat3::NFS3ERR_ROFS)
    }

    fn read(&self, _: fileid3, _: u64, _: u32) -> Result<(Vec<u8>, bool), nfsstat3> {
        Err(nfsstat3::NFS3ERR_ISDIR)
    }

    fn write(&self, _: fileid3, _: u64, _: &[u8]) -> Result<fattr3, nfsstat3> {
        Err(nfsstat3::NFS3ERR_ROFS)
    }

    fn create(&self, _: fileid3, _: &filename3, _: sattr3) -> Result<(fileid3, fattr3), nfsstat3> {
        Err(nfsstat3::NFS3ERR_ROFS)
    }

    fn create_exclusive(&self, _: fileid3, _: &filename3) -> Result<fileid3, nfsstat3> {
        Err(nfsstat3::NFS3ERR_ROFS)
    }

    fn mkdir(&self, _: fileid3, _: &filename3) -> Result<(fileid3, fattr3), nfsstat3> {
        Err(nfsstat3::NFS3ERR_ROFS)
    }

    fn remove(&self, _: fileid3, _: &filename3) -> Result<(), nfsstat3> {
        Err(nfsstat3::NFS3ERR_ROFS)
    }

    fn rename(&self, _: fileid3, _: &filename3, _: fileid3, _: &filename3) -> Result<(), nfsstat3> {
        Err(nfsstat3::NFS3ERR_ROFS)
    }

    fn readdir(&self, _: fileid3, _: fileid3, _: usize) -> Result<ReadDirResult, nfsstat3> {
        Ok(ReadDirResult { entries: vec![], end: true })
    }

    fn symlink(&self, _: fileid3, _: &filename3, _: &nfspath3, _: &sattr3) -> Result<(fileid3, fattr3), nfsstat3> {
        Err(nfsstat3::NFS3ERR_ROFS)
    }

    fn readlink(&self, _: fileid3) -> Result<nfspath3, nfsstat3> {
        Err(nfsstat3::NFS3ERR_INVAL)
    }

    fn link(&self, _: fileid3, _: fileid3, _: &filename3) -> Result<fattr3, nfsstat3> {
        Err(nfsstat3::NFS3ERR_ROFS)
    }

    fn mknod(&self, _: fileid3, _: &filename3, _: ftype3, _: specdata3, _: &sattr3) -> Result<(fileid3, fattr3), nfsstat3> {
        Err(nfsstat3::NFS3ERR_ROFS)
    }

    fn commit(&self, _: fileid3, _: u64, _: u32) -> Result<fattr3, nfsstat3> {
        Err(nfsstat3::NFS3ERR_ROFS)
    }
}

fn context() -> Context<Bare> {
    Context {
        local_port: 11111,
        client_addr: "10.0.0.1:700".to_string(),
        auth: auth_unix::default(),
        vfs: Bare,
        export_name: "/export".to_string(),
    }
}

fn request(xid: u32, rpcvers: u32, prog: u32, vers: u32, proc: u32, args: &[u8]) -> Vec<u8> {
    let mut out = Vec::new();
    rpc_msg {
        xid,
        body: rpc_body::CALL(call_body {
            rpcvers,
            prog,
            vers,
            proc,
            cred: opaque_auth::default(),
            verf: opaque_auth::default(),
        }),
    }
    .serialize(&mut out);
    out.extend_from_slice(args);
    out
}

fn bytes_of(m: rpc_msg) -> Vec<u8> {
    let mut out = Vec::new();
    m.serialize(&mut out);
    out
}

const REPLIED: Handled = Handled { replied: true, mount_signal: None };

// ---------------------------------------------------------------------
// fragments
// ---------------------------------------------------------------------

#[test]
fn fragment_header_has_length_and_last_bit() {
    assert_eq!(make_fragment_header(0, true), 0x8000_0000);
    assert_eq!(make_fragment_header(0, false), 0);
    assert_eq!(make_fragment_header(24, true), 0x8000_0018);
    assert_eq!(make_fragment_header(24, false), 0x18);
    assert_eq!(make_fragment_header(MAX_FRAGMENT_SIZE, true), 0xffff_ffff);
    assert_eq!(make_fragment_header(MAX_FRAGMENT_SIZE, false), 0x7fff_ffff);
    assert_eq!(MAX_FRAGMENT_SIZE, (1 << 31) - 1);
    assert_eq!(split_fragment_header(0x8000_0018), (true, 24));
    assert_eq!(split_fragment_header(0x18), (false, 24));
    assert_eq!(split_fragment_header(0), (false, 0));
    assert_eq!(split_fragment_header(0x8000_0000), (true, 0));
    assert_eq!(split_fragment_header(0xffff_ffff), (true, 0x7fff_ffff));
    assert_eq!(split_fragment_header(0x7fff_ffff), (false, 0x7fff_ffff));
    for len in [0usize, 1, 255, 256, 65536, MAX_FRAGMENT_SIZE] {
        for last in [true, false] {
            assert_eq!(split_fragment_header(make_fragment_header(len, last)), (last, len));
        }
    }
}

#[test]
fn record_goes_out_as_one_marked_fragment() {
    let mut socket = vec![0xee];
    write_fragment(&mut socket, b"hello");
    assert_eq!(socket, vec![0xee, 0x80, 0, 0, 5, b'h', b'e', b'l', b'l', b'o']);
    let mut socket = Vec::new();
    write_fragment(&mut socket, &[7; 300]);
    assert_eq!(&socket[..4], &[0x80, 0, 1, 0x2c]);
    assert_eq!(&socket[4..], &[7; 300][..]);
}

#[test]
fn empty_record_takes_no_bytes() {
    let mut socket = vec![1, 2];
    write_fragment(&mut socket, b"");
    assert_eq!(socket, vec![1, 2]);
}

#[test]
fn fragment_is_read_back() {
    let mut socket = Vec::new();
    write_fragment(&mut socket, b"hello");
    write_fragment(&mut socket, b"again!");
    let mut got = vec![b'>'];
    assert_eq!(read_fragment(&socket, 0, &mut got), Ok((true, 9)));
    assert_eq!(got, b">hello".to_vec());
    assert_eq!(read_fragment(&socket, 9, &mut got), Ok((true, 19)));
    assert_eq!(got, b">helloagain!".to_vec());
    assert_eq!(read_fragment(&socket, 19, &mut got), Err(DecodeError {}));
    assert_eq!(got, b">helloagain!".to_vec());
}

#[test]
fn fragment_that_is_not_all_there_is_not_read() {
    let socket = [0x80, 0, 0, 5, b'h', b'e', b'l', b'l'];
    let mut got = vec![1];
    assert_eq!(read_fragment(&socket, 0, &mut got), Err(DecodeError {}));
    assert_eq!(read_fragment(&socket[..3], 0, &mut got), Err(DecodeError {}));
    assert_eq!(read_fragment(&socket, 100, &mut got), Err(DecodeError {}));
    assert_eq!(read_fragment(&[0xff, 0xff, 0xff, 0xff, 1, 2], 0, &mut got), Err(DecodeError {}));
    assert_eq!(got, vec![1]);
}

#[test]
fn fragments_are_put_together() {
    let socket = [0, 0, 0, 3, b'a', b'b', b'c', 0, 0, 0, 0, 0x80, 0, 0, 2, b'd', b'e', 0x80, 0, 0, 1, b'x'];
    let mut handler = SocketMessageHandler::new(context());
    assert!(handler.cur_fragment.is_empty());
    assert_eq!(handler.read(&socket, 0), Ok((None, 7)));
    assert_eq!(handler.cur_fragment, b"abc".to_vec());
    assert_eq!(handler.read(&socket, 7), Ok((None, 11)));
    assert_eq!(handler.cur_fragment, b"abc".to_vec());
    assert_eq!(handler.read(&socket, 11), Ok((Some(b"abcde".to_vec()), 17)));
    assert!(handler.cur_fragment.is_empty());
    assert_eq!(handler.read(&socket, 17), Ok((Some(b"x".to_vec()), 22)));
    assert_eq!(handler.read(&socket, 22), Err(DecodeError {}));
    assert_eq!(handler.context.local_port, 11111);
}

#[test]
fn a_cut_off_fragment_leaves_the_record_as_it_is() {
    let socket = [0, 0, 0, 3, b'a', b'b', b'c', 0x80, 0, 0, 9, b'd'];
    let mut handler = SocketMessageHandler::new(context());
    assert_eq!(handler.read(&socket, 0), Ok((None, 7)));
    assert_eq!(handler.read(&socket, 7), Err(DecodeError {}));
    assert_eq!(handler.cur_fragment, b"abc".to_vec());
}

// ---------------------------------------------------------------------
// the tracker
// ---------------------------------------------------------------------

#[test]
fn tracker_knows_what_was_marked_of_late() {
    let a = "10.0.0.1:700".to_string();
    let b = "10.0.0.2:700".to_string();
    let mut t = TransactionTracker::new(1000);
    assert!(!t.is_retransmission(1, &a, 5000));
    t.mark_processed(1, &a, 5000);
    assert!(t.is_retransmission(1, &a, 5000));
    assert!(t.is_retransmission(1, &a, 5999));
    assert!(!t.is_retransmission(1, &a, 6000));
    assert!(!t.is_retransmission(1, &a, 1_000_000));
    assert!(!t.is_retransmission(2, &a, 5000));
    assert!(!t.is_retransmission(1, &b, 5000));
    // A clock that runs backwards makes nothing old.
    assert!(t.is_retransmission(1, &a, 4000));
}

#[test]
fn tracker_marks_again_and_forgets() {
    let a = "c".to_string();
    let mut t = TransactionTracker::new(10);
    t.mark_processed(1, &a, 100);
    t.mark_processed(2, &a, 105);
    assert!(t.is_retransmission(1, &a, 109));
    assert!(t.is_retransmission(2, &a, 109));
    t.mark_processed(1, &a, 109);
    assert!(t.is_retransmission(1, &a, 118));
    assert!(!t.is_retransmission(1, &a, 119));
    assert!(!t.is_retransmission(2, &a, 115));
    // Marking 3 at 116 drops the mark of 2, which is old by then.
    t.mark_processed(3, &a, 116);
    assert!(!t.is_retransmission(2, &a, 110));
    assert!(t.is_retransmission(1, &a, 110));
    assert!(t.is_retransmission(3, &a, 125));
}

#[test]
fn tracker_without_retention_tracks_nothing() {
    let a = "c".to_string();
    let mut t = TransactionTracker::new(0);
    t.mark_processed(1, &a, 100);
    assert!(!t.is_retransmission(1, &a, 100));
    assert!(t.is_retransmission(1, &a, 99));
}

// ---------------------------------------------------------------------
// the dispatcher
// ---------------------------------------------------------------------

#[test]
fn reply_carries_the_xid_of_the_call() {
    for xid in [0u32, 1, 0x01020304, u32::MAX] {
        for (prog, vers, proc) in [(100003, 3, 0), (100000, 2, 0), (100005, 3, 0), (100003, 2, 0), (5, 5, 5), (100003, 3, 99)] {
            let mut ctx = context();
            let mut tracker = TransactionTracker::new(1000);
            let mut out = vec![0xcc];
            let r = handle_rpc(&request(xid, 2, prog, vers, proc, &[]), &mut out, &mut ctx, &mut tracker, 1);
            assert_eq!(r, Ok(REPLIED));
            assert_eq!(out[0], 0xcc);
            assert_eq!(decode_u32(&out, 1), Ok((xid, 5)));
            let (msg, _) = rpc_msg::deserialize(&out, 1).unwrap();
            assert_eq!(msg.xid, xid);
            assert!(matches!(msg.body, rpc_body::REPLY(_)));
        }
    }
}

#[test]
fn getport_through_the_dispatcher() {
    let mut ctx = context();
    let mut tracker = TransactionTracker::new(1000);
    let mut args = Vec::new();
    mapping { prog: 100003, vers: 3, prot: 6, port: 0 }.serialize(&mut args);
    let mut out = Vec::new();
    assert_eq!(handle_rpc(&request(9, 2, 100000, 2, 3, &args), &mut out, &mut ctx, &mut tracker, 1), Ok(REPLIED));
    let mut expect = bytes_of(make_success_reply(9));
    expect.extend_from_slice(&[0, 0, 0x2b, 0x67]);
    assert_eq!(out, expect);
}

#[test]
fn mount_through_the_dispatcher_hands_back_the_signal() {
    let mut ctx = context();
    let mut tracker = TransactionTracker::new(1000);
    let mut args = Vec::new();
    encode_opaque(b"/export", &mut args);
    let mut out = Vec::new();
    assert_eq!(
        handle_rpc(&request(1, 2, 100005, 3, 1, &args), &mut out, &mut ctx, &mut tracker, 1),
        Ok(Handled { replied: true, mount_signal: Some(true) })
    );
    assert_eq!(mountstat3::deserialize(&out, 24).unwrap().0, mountstat3::MNT3_OK);
    assert_eq!(&out[32..48], &handle_of_id(77, 1).data[..]);
    let mut out = Vec::new();
    assert_eq!(
        handle_rpc(&request(2, 2, 100005, 3, 3, &args), &mut out, &mut ctx, &mut tracker, 1),
        Ok(Handled { replied: true, mount_signal: Some(false) })
    );
    let mut out = Vec::new();
    assert_eq!(
        handle_rpc(&request(3, 2, 100005, 3, 4, &[]), &mut out, &mut ctx, &mut tracker, 1),
        Ok(Handled { replied: true, mount_signal: Some(false) })
    );
    let mut wrong = Vec::new();
    encode_opaque(b"/wrong", &mut wrong);
    let mut out = Vec::new();
    assert_eq!(handle_rpc(&request(4, 2, 100005, 3, 1, &wrong), &mut out, &mut ctx, &mut tracker, 1), Ok(REPLIED));
    assert_eq!(mountstat3::deserialize(&out, 24), Ok((mountstat3::MNT3ERR_NOENT, 28)));
}

#[test]
fn other_rpc_versions_are_denied() {
    for rpcvers in [0u32, 1, 3] {
        let mut ctx = context();
        let mut tracker = TransactionTracker::new(1000);
        let mut out = Vec::new();
        assert_eq!(handle_rpc(&request(8, rpcvers, 100003, 3, 0, &[]), &mut out, &mut ctx, &mut tracker, 1), Ok(REPLIED));
        assert_eq!(out, bytes_of(rpc_vers_mismatch(8)));
        // A call that was denied is not marked.
        assert!(!tracker.is_retransmission(8, &ctx.client_addr, 1));
    }
}

#[test]
fn programs_that_are_not_served() {
    for prog in [100227u32, 100270, 200024, 0, 100004, 100021, u32::MAX] {
        let mut ctx = context();
        let mut tracker = TransactionTracker::new(1000);
        let mut out = Vec::new();
        assert_eq!(handle_rpc(&request(8, 2, prog, 3, 0, &[]), &mut out, &mut ctx, &mut tracker, 1), Ok(REPLIED));
        assert_eq!(out, bytes_of(prog_unavail_reply_message(8)));
    }
}

#[test]
fn versions_and_procedures_that_are_not_served() {
    for (prog, vers, served) in [(100003u32, 4u32, 3u32), (100003, 2, 3), (100005, 1, 3), (100000, 3, 2)] {
        let mut ctx = context();
        let mut tracker = TransactionTracker::new(1000);
        let mut out = Vec::new();
        assert_eq!(handle_rpc(&request(8, 2, prog, vers, 0, &[]), &mut out, &mut ctx, &mut tracker, 1), Ok(REPLIED));
        assert_eq!(out, bytes_of(prog_mismatch_reply_message(8, served)));
    }
    for (prog, vers, proc) in [(100003u32, 3u32, 22u32), (100005, 3, 2), (100000, 2, 1)] {
        let mut ctx = context();
        let mut tracker = TransactionTracker::new(1000);
        let mut out = Vec::new();
        assert_eq!(handle_rpc(&request(8, 2, prog, vers, proc, &[]), &mut out, &mut ctx, &mut tracker, 1), Ok(REPLIED));
        assert_eq!(out, bytes_of(proc_unavail_reply_message(8)));
    }
}

#[test]
fn repeated_request_gets_no_reply() {
    let mut ctx = context();
    let mut tracker = TransactionTracker::new(1000);
    let req = request(42, 2, 100003, 3, 0, &[]);
    let mut out = Vec::new();
    assert_eq!(handle_rpc(&req, &mut out, &mut ctx, &mut tracker, 5000), Ok(REPLIED));
    let first = out.clone();
    assert!(!first.is_empty());

    for now in [5000u64, 5001, 5999] {
        let mut out = vec![1, 2];
        assert_eq!(
            handle_rpc(&req, &mut out, &mut ctx, &mut tracker, now),
            Ok(Handled { replied: false, mount_signal: None })
        );
        assert_eq!(out, vec![1, 2]);
    }
    // Another transaction, and the same from another client, are answered.
    let mut out = Vec::new();
    assert_eq!(handle_rpc(&request(43, 2, 100003, 3, 0, &[]), &mut out, &mut ctx, &mut tracker, 5001), Ok(REPLIED));
    let mut other = context();
    other.client_addr = "10.0.0.2:700".to_string();
    let mut out = Vec::new();
    assert_eq!(handle_rpc(&req, &mut out, &mut other, &mut tracker, 5001), Ok(REPLIED));
    assert_eq!(out, first);
    // Once the retention is over the request is answered again.
    let mut out = Vec::new();
    assert_eq!(handle_rpc(&req, &mut out, &mut ctx, &mut tracker, 6000), Ok(REPLIED));
    assert_eq!(out, first);
    assert!(tracker.is_retransmission(42, &ctx.client_addr, 6999));
}

#[test]
fn request_that_fails_is_marked_too() {
    let mut ctx = context();
    let mut tracker = TransactionTracker::new(1000);
    // GETATTR without arguments.
    let req = request(50, 2, 100003, 3, 1, &[]);
    let mut out = vec![9];
    assert_eq!(handle_rpc(&req, &mut out, &mut ctx, &mut tracker, 10), Err(RpcError::Decode));
    assert_eq!(out, vec![9]);
    assert!(tracker.is_retransmission(50, &ctx.client_addr, 10));
    assert_eq!(
        handle_rpc(&req, &mut out, &mut ctx, &mut tracker, 11),
        Ok(Handled { replied: false, mount_signal: None })
    );
}

#[test]
fn record_that_is_no_call_is_an_error() {
    let mut ctx = context();
    let mut tracker = TransactionTracker::new(1000);
    let mut out = vec![3];
    let reply = bytes_of(make_success_reply(1));
    assert_eq!(handle_rpc(&reply, &mut out, &mut ctx, &mut tracker, 1), Err(RpcError::NotACall));
    assert_eq!(handle_rpc(&bytes_of(rpc_vers_mismatch(1)), &mut out, &mut ctx, &mut tracker, 1), Err(RpcError::NotACall));
    assert_eq!(handle_rpc(&[], &mut out, &mut ctx, &mut tracker, 1), Err(RpcError::Decode));
    assert_eq!(handle_rpc(&[0, 0, 0, 1, 0, 0, 0, 7], &mut out, &mut ctx, &mut tracker, 1), Err(RpcError::Decode));
    let req = request(1, 2, 100003, 3, 0, &[]);
    assert_eq!(handle_rpc(&req[..req.len() - 1], &mut out, &mut ctx, &mut tracker, 1), Err(RpcError::Decode));
    assert_eq!(out, vec![3]);
    assert!(!tracker.is_retransmission(1, &ctx.client_addr, 1));
}

#[test]
fn unix_credentials_are_taken_note_of() {
    let cred = auth_unix { stamp: 3, machinename: b"box".to_vec(), uid: 1000, gid: 100, gids: vec![4, 5] };
    let mut body = Vec::new();
    cred.serialize(&mut body);
    let with = |flavor: auth_flavor, body: Vec<u8>, xid: u32| {
        bytes_of(rpc_msg {
            xid,
            body: rpc_body::CALL(call_body {
                rpcvers: 2,
                prog: 100003,
                vers: 3,
                proc: 0,
                cred: opaque_auth { flavor, body },
                verf: opaque_auth::default(),
            }),
        })
    };
    let mut ctx = context();
    let mut tracker = TransactionTracker::new(1000);
    let mut out = Vec::new();
    assert_eq!(handle_rpc(&with(auth_flavor::AUTH_UNIX, body.clone(), 1), &mut out, &mut ctx, &mut tracker, 1), Ok(REPLIED));
    assert_eq!(ctx.auth, cred);
    // Credentials of another flavor, and ones that cannot be read, change nothing.
    assert_eq!(handle_rpc(&with(auth_flavor::AUTH_NULL, vec![], 2), &mut out, &mut ctx, &mut tracker, 1), Ok(REPLIED));
    assert_eq!(ctx.auth, cred);
    assert_eq!(handle_rpc(&with(auth_flavor::AUTH_UNIX, vec![1, 2, 3], 3), &mut out, &mut ctx, &mut tracker, 1), Ok(REPLIED));
    assert_eq!(ctx.auth, cred);
    assert_eq!(handle_rpc(&with(auth_flavor::AUTH_SHORT, body, 4), &mut out, &mut ctx, &mut tracker, 1), Ok(REPLIED));
    assert_eq!(ctx.auth, cred);
    assert_eq!(ctx.local_port, 11111);
    assert_eq!(ctx.export_name, "/export");
}

#[test]
fn results_go_out_behind_the_envelope() {
    let mut out = vec![5];
    send_result(7, &vec![1, 2, 3], &mut out);
    let mut expect = vec![5];
    expect.extend_from_slice(&bytes_of(make_success_reply(7)));
    expect.extend_from_slice(&[1, 2, 3]);
    assert_eq!(out, expect);
    let mut out = vec![5];
    send_message(&proc_unavail_reply_message(7), &mut out);
    assert_eq!(&out[1..], &bytes_of(proc_unavail_reply_message(7))[..]);
}
