//! The wire format: known encodings, round trips, and what a decoder
//! refuses.

use nfsserve::xdr::mount::{mountres3_ok, mountstat3, MountProgram};
use nfsserve::xdr::nfs3::{
    createhow3, diropargs3, entry3, entryplus3, fattr3, ftype3, nfs_fh3, nfsstat3, nfsstring,
    nfstime3, post_op_attr, post_op_fh3, pre_op_attr, sattr3, sattrguard3, set_atime, set_mode3,
    set_mtime, set_size3, specdata3, wcc_attr, wcc_data, NFSProgram, CREATE3args, READ3resok,
    READDIRPLUS3args, SETATTR3args, WRITE3args, WRITE3resok, stable_how,
};
use nfsserve::xdr::portmap::{mapping, PortmapProgram};
use nfsserve::xdr::rpc::{
    accept_body, accepted_reply, auth_flavor, auth_stat, auth_unix, call_body,
    garbage_args_reply_message, make_success_reply, mismatch_info, opaque_auth,
    proc_unavail_reply_message, prog_mismatch_reply_message, prog_unavail_reply_message,
    rejected_reply, reply_body, rpc_body, rpc_msg, rpc_vers_mismatch,
};
use nfsserve::xdr::{
    decode_bool, decode_fixed8, decode_opaque, decode_u32, decode_u32_array, decode_u64,
    encode_bool, encode_fixed8, encode_opaque, encode_u32, encode_u32_array, encode_u64,
    opaque_fits, DecodeError,
};

fn sample_attr() -> fattr3 {
    fattr3 {
        ftype: ftype3::NF3DIR,
        mode: 0o755,
        nlink: 2,
        uid: 507,
        gid: 508,
        size: 4096,
        used: 8192,
        rdev: specdata3 { specdata1: 3, specdata2: 4 },
        fsid: 0x1122334455667788,
        fileid: 42,
        atime: nfstime3 { seconds: 1, nseconds: 2 },
        mtime: nfstime3 { seconds: 3, nseconds: 4 },
        ctime: nfstime3 { seconds: 5, nseconds: 6 },
    }
}

#[test]
fn u32_is_big_endian() {
    let mut out = Vec::new();
    encode_u32(267, &mut out);
    encode_u32(1205419366, &mut out);
    assert_eq!(out, vec![0x00, 0x00, 0x01, 0x0b, 0x47, 0xd9, 0x3d, 0x66]);
    assert_eq!(decode_u32(&out, 0), Ok((267, 4)));
    assert_eq!(decode_u32(&out, 4), Ok((1205419366, 8)));
}

#[test]
fn u32_extremes_round_trip() {
    for v in [0u32, 1, 0xff, 0x100, 0x7fff_ffff, 0x8000_0000, u32::MAX] {
        let mut out = vec![9u8];
        encode_u32(v, &mut out);
        assert_eq!(out.len(), 5);
        assert_eq!(decode_u32(&out, 1), Ok((v, 5)));
    }
}

#[test]
fn u64_is_big_endian() {
    let mut out = Vec::new();
    encode_u64(0x0102030405060708, &mut out);
    assert_eq!(out, vec![1, 2, 3, 4, 5, 6, 7, 8]);
    assert_eq!(decode_u64(&out, 0), Ok((0x0102030405060708, 8)));
    for v in [0u64, 1, u32::MAX as u64, u32::MAX as u64 + 1, u64::MAX] {
        let mut out = Vec::new();
        encode_u64(v, &mut out);
        assert_eq!(decode_u64(&out, 0), Ok((v, 8)));
    }
}

#[test]
fn short_input_does_not_decode() {
    assert_eq!(decode_u32(&[0, 0, 1], 0), Err(DecodeError {}));
    assert_eq!(decode_u32(&[0, 0, 0, 1], 1), Err(DecodeError {}));
    assert_eq!(decode_u32(&[0, 0, 0, 1], 5), Err(DecodeError {}));
    assert_eq!(decode_u32(&[], usize::MAX), Err(DecodeError {}));
    assert_eq!(decode_u64(&[0, 0, 0, 0, 0, 0, 1], 0), Err(DecodeError {}));
    assert_eq!(decode_bool(&[], 0), Err(DecodeError {}));
    assert_eq!(decode_fixed8(&[1, 2, 3, 4, 5, 6, 7], 0), Err(DecodeError {}));
}

#[test]
fn bool_is_a_word_and_any_nonzero_is_true() {
    let mut out = Vec::new();
    encode_bool(true, &mut out);
    encode_bool(false, &mut out);
    assert_eq!(out, vec![0, 0, 0, 1, 0, 0, 0, 0]);
    assert_eq!(decode_bool(&out, 0), Ok((true, 4)));
    assert_eq!(decode_bool(&out, 4), Ok((false, 8)));
    assert_eq!(decode_bool(&[0, 0, 2, 0], 0), Ok((true, 4)));
    assert_eq!(decode_bool(&[0xff, 0xff, 0xff, 0xff], 0), Ok((true, 4)));
}

#[test]
fn opaque_is_padded_to_four() {
    let mut out = Vec::new();
    encode_opaque(b"hello", &mut out);
    assert_eq!(out, vec![0, 0, 0, 5, b'h', b'e', b'l', b'l', b'o', 0, 0, 0]);
    assert_eq!(decode_opaque(&out, 0), Ok((b"hello".to_vec(), 12)));

    for (data, len) in [(&b""[..], 4), (&b"a"[..], 8), (&b"ab"[..], 8), (&b"abc"[..], 8), (&b"abcd"[..], 8)] {
        let mut out = Vec::new();
        encode_opaque(data, &mut out);
        assert_eq!(out.len(), len);
        assert_eq!(decode_opaque(&out, 0), Ok((data.to_vec(), len)));
    }
}

#[test]
fn opaque_padding_is_not_looked_at() {
    let bytes = [0, 0, 0, 1, b'x', 7, 8, 9];
    assert_eq!(decode_opaque(&bytes, 0), Ok((b"x".to_vec(), 8)));
}

#[test]
fn opaque_length_past_the_end_does_not_decode() {
    assert_eq!(decode_opaque(&[0, 0, 0, 5, 1, 2, 3, 4], 0), Err(DecodeError {}));
    // The data is there, the padding is not.
    assert_eq!(decode_opaque(&[0, 0, 0, 1, 1], 0), Err(DecodeError {}));
    assert_eq!(decode_opaque(&[0xff, 0xff, 0xff, 0xff, 1, 2, 3, 4], 0), Err(DecodeError {}));
    assert_eq!(decode_opaque(&[0, 0], 0), Err(DecodeError {}));
}

#[test]
fn opaque_fits_short_data() {
    assert!(opaque_fits(b""));
    assert!(opaque_fits(&[0u8; 1000]));
}

#[test]
fn fixed8_has_no_length() {
    let mut out = Vec::new();
    encode_fixed8(&[1, 2, 3, 4, 5, 6, 7, 8], &mut out);
    assert_eq!(out, vec![1, 2, 3, 4, 5, 6, 7, 8]);
    assert_eq!(decode_fixed8(&out, 0), Ok(([1, 2, 3, 4, 5, 6, 7, 8], 8)));
}

#[test]
fn u32_array_has_a_count() {
    let mut out = Vec::new();
    encode_u32_array(&vec![0, 1, 0x01020304], &mut out);
    assert_eq!(out, vec![0, 0, 0, 3, 0, 0, 0, 0, 0, 0, 0, 1, 1, 2, 3, 4]);
    assert_eq!(decode_u32_array(&out, 0), Ok((vec![0, 1, 0x01020304], 16)));
    let mut empty = Vec::new();
    encode_u32_array(&vec![], &mut empty);
    assert_eq!(empty, vec![0, 0, 0, 0]);
    assert_eq!(decode_u32_array(&empty, 0), Ok((vec![], 4)));
    assert_eq!(decode_u32_array(&[0, 0, 0, 2, 0, 0, 0, 1], 0), Err(DecodeError {}));
    assert_eq!(decode_u32_array(&[0xff, 0xff, 0xff, 0xff], 0), Err(DecodeError {}));
}

#[test]
fn status_codes_are_those_of_the_rfc() {
    assert_eq!(nfsstat3::NFS3_OK.to_u32(), 0);
    assert_eq!(nfsstat3::NFS3ERR_NOENT.to_u32(), 2);
    assert_eq!(nfsstat3::NFS3ERR_ROFS.to_u32(), 30);
    assert_eq!(nfsstat3::NFS3ERR_STALE.to_u32(), 70);
    assert_eq!(nfsstat3::NFS3ERR_BADHANDLE.to_u32(), 10001);
    assert_eq!(nfsstat3::NFS3ERR_NOT_SYNC.to_u32(), 10002);
    assert_eq!(nfsstat3::NFS3ERR_JUKEBOX.to_u32(), 10008);
    assert_eq!(nfsstat3::from_u32(17), Some(nfsstat3::NFS3ERR_EXIST));
    assert_eq!(nfsstat3::from_u32(3), None);
    assert_eq!(nfsstat3::from_u32(10009), None);
    assert_eq!(ftype3::from_u32(0), None);
    assert_eq!(ftype3::from_u32(1), Some(ftype3::NF3REG));
    assert_eq!(ftype3::from_u32(7), Some(ftype3::NF3FIFO));
    assert_eq!(ftype3::from_u32(8), None);
    assert_eq!(mountstat3::MNT3ERR_NOENT.to_u32(), 2);
    assert_eq!(mountstat3::MNT3ERR_SERVERFAULT.to_u32(), 10006);
    assert_eq!(auth_flavor::AUTH_UNIX.to_u32(), 1);
    assert_eq!(auth_stat::from_u32(0), None);
    assert_eq!(auth_stat::from_u32(5), Some(auth_stat::AUTH_TOOWEAK));
    assert_eq!(stable_how::FILE_SYNC.to_u32(), 2);
}

#[test]
fn procedure_numbers_are_those_of_the_rfc() {
    assert_eq!(NFSProgram::from_u32(0), Some(NFSProgram::NFSPROC3_NULL));
    assert_eq!(NFSProgram::from_u32(6), Some(NFSProgram::NFSPROC3_READ));
    assert_eq!(NFSProgram::from_u32(17), Some(NFSProgram::NFSPROC3_READDIRPLUS));
    assert_eq!(NFSProgram::from_u32(21), Some(NFSProgram::NFSPROC3_COMMIT));
    assert_eq!(NFSProgram::from_u32(23), None);
    assert_eq!(MountProgram::from_u32(1), Some(MountProgram::MOUNTPROC3_MNT));
    assert_eq!(MountProgram::from_u32(5), Some(MountProgram::MOUNTPROC3_EXPORT));
    assert_eq!(PortmapProgram::from_u32(3), Some(PortmapProgram::PMAPPROC_GETPORT));
    assert_eq!(PortmapProgram::from_u32(7), None);
}

#[test]
fn every_status_round_trips() {
    for code in 0..11000u32 {
        if let Some(stat) = nfsstat3::from_u32(code) {
            assert_eq!(stat.to_u32(), code);
            let mut out = Vec::new();
            stat.serialize(&mut out);
            assert_eq!(nfsstat3::deserialize(&out, 0), Ok((stat, 4)));
        } else {
            let mut out = Vec::new();
            encode_u32(code, &mut out);
            assert_eq!(nfsstat3::deserialize(&out, 0), Err(DecodeError {}));
        }
    }
}

#[test]
fn unknown_discriminant_does_not_decode() {
    let mut out = Vec::new();
    encode_u32(9, &mut out);
    assert_eq!(ftype3::deserialize(&out, 0), Err(DecodeError {}));
    assert_eq!(auth_flavor::deserialize(&out, 0), Err(DecodeError {}));
    assert_eq!(set_atime::deserialize(&out, 0), Err(DecodeError {}));
    assert_eq!(rpc_body::deserialize(&out, 0), Err(DecodeError {}));
    assert_eq!(accept_body::deserialize(&out, 0), Err(DecodeError {}));
    assert_eq!(createhow3::deserialize(&out, 0), Err(DecodeError {}));
}

#[test]
fn mapping_round_trips() {
    let m = mapping { prog: 100003, vers: 3, prot: 6, port: 0 };
    let mut out = Vec::new();
    m.serialize(&mut out);
    assert_eq!(
        out,
        vec![0x00, 0x01, 0x86, 0xa3, 0, 0, 0, 3, 0, 0, 0, 6, 0, 0, 0, 0]
    );
    assert_eq!(mapping::deserialize(&out, 0), Ok((m, 16)));
    assert_eq!(mapping::deserialize(&out[..15], 0), Err(DecodeError {}));
}

#[test]
fn fattr3_round_trips_in_84_bytes() {
    let attr = sample_attr();
    let mut out = vec![0xaa];
    attr.serialize(&mut out);
    assert_eq!(out.len(), 85);
    assert_eq!(fattr3::deserialize(&out, 1), Ok((attr, 85)));
    assert_eq!(&out[1..5], &[0, 0, 0, 2]);
    assert_eq!(&out[5..9], &[0, 0, 0x01, 0xed]);
    for cut in 1..85 {
        assert_eq!(fattr3::deserialize(&out[..cut], 1), Err(DecodeError {}));
    }
}

#[test]
fn optional_attributes_round_trip() {
    let mut out = Vec::new();
    post_op_attr::Void.serialize(&mut out);
    assert_eq!(out, vec![0, 0, 0, 0]);
    assert_eq!(post_op_attr::deserialize(&out, 0), Ok((post_op_attr::Void, 4)));

    let some = post_op_attr::attributes(sample_attr());
    let mut out = Vec::new();
    some.serialize(&mut out);
    assert_eq!(out.len(), 88);
    assert_eq!(&out[..4], &[0, 0, 0, 1]);
    assert_eq!(post_op_attr::deserialize(&out, 0), Ok((some, 88)));

    let pre = pre_op_attr::attributes(wcc_attr {
        size: 7,
        mtime: nfstime3 { seconds: 1, nseconds: 2 },
        ctime: nfstime3 { seconds: 3, nseconds: 4 },
    });
    let wcc = wcc_data { before: pre, after: some };
    let mut out = Vec::new();
    wcc.serialize(&mut out);
    assert_eq!(out.len(), 4 + 24 + 88);
    assert_eq!(wcc_data::deserialize(&out, 0), Ok((wcc, 116)));

    let mut out = Vec::new();
    wcc_data::default().serialize(&mut out);
    assert_eq!(out, vec![0u8; 8]);
}

#[test]
fn handles_and_names_round_trip() {
    let fh = nfs_fh3 { data: (0u8..16).collect() };
    assert!(fh.fits());
    let mut out = Vec::new();
    fh.serialize(&mut out);
    assert_eq!(out.len(), 20);
    assert_eq!(nfs_fh3::deserialize(&out, 0), Ok((fh.clone(), 20)));

    let name = nfsstring(b"a.txt".to_vec());
    assert_eq!(name.len(), 5);
    assert!(name.fits());
    assert_eq!(name.duplicate(), name);
    assert_eq!(nfsstring::from_bytes(b"a.txt"), name);
    let args = diropargs3 { dir: fh.clone(), name: name.clone() };
    let mut out = Vec::new();
    args.serialize(&mut out);
    assert_eq!(out.len(), 20 + 12);
    assert_eq!(diropargs3::deserialize(&out, 0), Ok((args, 32)));

    let with = post_op_fh3::handle(fh);
    let mut out = Vec::new();
    with.serialize(&mut out);
    assert_eq!(out.len(), 24);
    assert_eq!(post_op_fh3::deserialize(&out, 0), Ok((with, 24)));
}

#[test]
fn sattr3_round_trips() {
    let s = sattr3 {
        mode: set_mode3::mode(0o644),
        uid: nfsserve::xdr::nfs3::set_uid3::Void,
        gid: nfsserve::xdr::nfs3::set_gid3::gid(12),
        size: set_size3::size(1 << 40),
        atime: set_atime::SET_TO_SERVER_TIME,
        mtime: set_mtime::SET_TO_CLIENT_TIME(nfstime3 { seconds: 9, nseconds: 10 }),
    };
    let mut out = Vec::new();
    s.serialize(&mut out);
    assert_eq!(out.len(), 8 + 4 + 8 + 12 + 4 + 12);
    assert_eq!(sattr3::deserialize(&out, 0), Ok((s, out.len())));

    let mut out = Vec::new();
    sattr3::default().serialize(&mut out);
    assert_eq!(out, vec![0u8; 24]);

    let args = SETATTR3args {
        object: nfs_fh3 { data: vec![1, 2, 3] },
        new_attribute: s,
        guard: sattrguard3::obj_ctime(nfstime3 { seconds: 5, nseconds: 6 }),
    };
    let mut out = Vec::new();
    args.serialize(&mut out);
    assert_eq!(SETATTR3args::deserialize(&out, 0), Ok((args, out.len())));
}

#[test]
fn arguments_round_trip() {
    let w = WRITE3args {
        file: nfs_fh3 { data: vec![7; 16] },
        offset: 1 << 33,
        count: 5,
        stable: 2,
        data: b"12345".to_vec(),
    };
    assert!(w.fits());
    let mut out = Vec::new();
    w.serialize(&mut out);
    assert_eq!(out.len(), 20 + 8 + 4 + 4 + 12);
    assert_eq!(WRITE3args::deserialize(&out, 0), Ok((w, out.len())));

    let r = READDIRPLUS3args {
        dir: nfs_fh3 { data: vec![7; 16] },
        cookie: 99,
        cookieverf: [1, 2, 3, 4, 5, 6, 7, 8],
        dircount: 200,
        maxcount: 4096,
    };
    let mut out = Vec::new();
    r.serialize(&mut out);
    assert_eq!(out.len(), 20 + 8 + 8 + 4 + 4);
    assert_eq!(READDIRPLUS3args::deserialize(&out, 0), Ok((r, out.len())));

    let c = CREATE3args {
        where_dir: diropargs3 { dir: nfs_fh3 { data: vec![7; 16] }, name: nfsstring(b"n".to_vec()) },
        how: createhow3::EXCLUSIVE,
    };
    let mut out = Vec::new();
    c.serialize(&mut out);
    assert_eq!(CREATE3args::deserialize(&out, 0), Ok((c, out.len())));
}

#[test]
fn results_round_trip() {
    let r = READ3resok {
        file_attributes: post_op_attr::Void,
        count: 3,
        eof: true,
        data: b"abc".to_vec(),
    };
    let mut out = Vec::new();
    r.serialize(&mut out);
    assert_eq!(out, vec![0, 0, 0, 0, 0, 0, 0, 3, 0, 0, 0, 1, 0, 0, 0, 3, b'a', b'b', b'c', 0]);
    assert_eq!(READ3resok::deserialize(&out, 0), Ok((r, 20)));

    let w = WRITE3resok {
        file_wcc: wcc_data::default(),
        count: 5,
        committed: stable_how::FILE_SYNC,
        verf: [8, 7, 6, 5, 4, 3, 2, 1],
    };
    let mut out = Vec::new();
    w.serialize(&mut out);
    assert_eq!(out.len(), 8 + 4 + 4 + 8);
    assert_eq!(WRITE3resok::deserialize(&out, 0), Ok((w, 24)));

    let m = mountres3_ok { fhandle: vec![1; 16], auth_flavors: vec![0, 1] };
    assert!(m.fits());
    let mut out = Vec::new();
    m.serialize(&mut out);
    assert_eq!(out.len(), 20 + 12);
    assert_eq!(mountres3_ok::deserialize(&out, 0), Ok((m, 32)));
}

#[test]
fn directory_entries_round_trip() {
    let e = entry3 { fileid: 5, name: nfsstring(b"0123456789".to_vec()), cookie: 5 };
    let mut out = Vec::new();
    e.serialize(&mut out);
    assert_eq!(out.len(), 8 + 16 + 8);
    assert_eq!(entry3::deserialize(&out, 0), Ok((e, 32)));

    let p = entryplus3 {
        fileid: 5,
        name: nfsstring(b"0123456789".to_vec()),
        cookie: 5,
        name_attributes: post_op_attr::attributes(sample_attr()),
        name_handle: post_op_fh3::handle(nfs_fh3 { data: vec![3; 16] }),
    };
    assert!(p.fits());
    let mut out = Vec::new();
    p.serialize(&mut out);
    assert_eq!(out.len(), 32 + 88 + 24);
    assert_eq!(entryplus3::deserialize(&out, 0), Ok((p, 144)));
}

#[test]
fn call_round_trips() {
    let cred = auth_unix {
        stamp: 1,
        machinename: b"host".to_vec(),
        uid: 1000,
        gid: 1001,
        gids: vec![4, 24, 27],
    };
    let mut body = Vec::new();
    cred.serialize(&mut body);
    assert_eq!(auth_unix::deserialize(&body, 0), Ok((cred, body.len())));
    let call = rpc_msg {
        xid: 0xdeadbeef,
        body: rpc_body::CALL(call_body {
            rpcvers: 2,
            prog: 100003,
            vers: 3,
            proc: 1,
            cred: opaque_auth { flavor: auth_flavor::AUTH_UNIX, body },
            verf: opaque_auth::default(),
        }),
    };
    assert!(call.fits());
    let mut out = Vec::new();
    call.serialize(&mut out);
    assert_eq!(&out[..4], &[0xde, 0xad, 0xbe, 0xef]);
    assert_eq!(&out[4..8], &[0, 0, 0, 0]);
    assert_eq!(rpc_msg::deserialize(&out, 0), Ok((call, out.len())));
    for cut in 0..out.len() {
        assert_eq!(rpc_msg::deserialize(&out[..cut], 0), Err(DecodeError {}));
    }
}

#[test]
fn success_reply_is_24_bytes_with_the_xid_in_front() {
    let mut out = Vec::new();
    make_success_reply(0x01020304).serialize(&mut out);
    assert_eq!(
        out,
        vec![1, 2, 3, 4, 0, 0, 0, 1, 0, 0, 0, 0, 0, 0, 0, 0, 0, 0, 0, 0, 0, 0, 0, 0]
    );
    let (msg, end) = rpc_msg::deserialize(&out, 0).unwrap();
    assert_eq!(end, 24);
    assert_eq!(msg.xid, 0x01020304);
    assert_eq!(
        msg.body,
        rpc_body::REPLY(reply_body::MSG_ACCEPTED(accepted_reply {
            verf: opaque_auth { flavor: auth_flavor::AUTH_NULL, body: vec![] },
            reply_data: accept_body::SUCCESS,
        }))
    );
}

#[test]
fn error_replies_carry_their_status() {
    let status_of = |m: rpc_msg| match m.body {
        rpc_body::REPLY(reply_body::MSG_ACCEPTED(a)) => a.reply_data,
        _ => panic!("not an accepted reply"),
    };
    assert_eq!(status_of(proc_unavail_reply_message(1)), accept_body::PROC_UNAVAIL);
    assert_eq!(status_of(prog_unavail_reply_message(1)), accept_body::PROG_UNAVAIL);
    assert_eq!(status_of(garbage_args_reply_message(1)), accept_body::GARBAGE_ARGS);
    assert_eq!(
        status_of(prog_mismatch_reply_message(1, 3)),
        accept_body::PROG_MISMATCH(mismatch_info { low: 3, high: 3 })
    );
    let denied = rpc_vers_mismatch(77);
    assert_eq!(denied.xid, 77);
    assert_eq!(
        denied.body,
        rpc_body::REPLY(reply_body::MSG_DENIED(rejected_reply::RPC_MISMATCH(mismatch_info {
            low: 2,
            high: 2
        })))
    );
    for m in [
        proc_unavail_reply_message(5),
        prog_mismatch_reply_message(5, 2),
        rpc_vers_mismatch(5),
    ] {
        let mut out = Vec::new();
        m.serialize(&mut out);
        assert_eq!(&out[..4], &[0, 0, 0, 5]);
        assert_eq!(rpc_msg::deserialize(&out, 0), Ok((m, out.len())));
    }
}
