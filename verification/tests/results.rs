//! Results, put together from chosen answers of a file system.

use nfsserve::protocol::nfs::mount::mnt::mnt_body;
use nfsserve::protocol::nfs::v3::access::access_body;
use nfsserve::protocol::nfs::v3::commit::commit_body;
use nfsserve::protocol::nfs::v3::create::create_body;
use nfsserve::protocol::nfs::v3::fsinfo::fsinfo_body;
use nfsserve::protocol::nfs::v3::getattr::getattr_body;
use nfsserve::protocol::nfs::v3::link::{link_body, refuse_link};
use nfsserve::protocol::nfs::v3::lookup::lookup_body;
use nfsserve::protocol::nfs::v3::read::read_body;
use nfsserve::protocol::nfs::v3::readdir::readdir_body;
use nfsserve::protocol::nfs::v3::readdirplus::readdirplus_body;
use nfsserve::protocol::nfs::v3::readlink::readlink_body;
use nfsserve::protocol::nfs::v3::rename::{refuse_rename, rename_body};
use nfsserve::protocol::nfs::v3::setattr::setattr_body;
use nfsserve::protocol::nfs::v3::write::write_body;
use nfsserve::protocol::nfs::v3::{change_body, made_body, refuse_attr, status};
use nfsserve::protocol::rpc::{answer_call, begin_rpc, Begun, Context, Handled, RpcError, TransactionTracker};
use nfsserve::vfs::{default_fsinfo, Capabilities, DirEntry, NFSFileSystem, ReadDirResult};
use nfsserve::xdr::mount::{mountres3_ok, mountstat3};
use nfsserve::xdr::nfs3::{
    fattr3, fileid3, filename3, fsinfo3, ftype3, nfs_fh3, nfspath3, nfsstat3, nfsstring,
    nfstime3, post_op_attr, post_op_fh3, pre_op_attr, sattr3, sattrguard3, specdata3,
    stable_how, wcc_attr, wcc_data, COMMIT3resok, READ3resok, WRITE3resok,
};
use nfsserve::xdr::rpc::{auth_unix, call_body, opaque_auth, rpc_body, rpc_msg, rpc_vers_mismatch};
use nfsserve::xdr::{decode_bool, decode_u32};

type Attr = Result<fattr3, nfsstat3>;

fn attr(id: u64, time: u32) -> fattr3 {
    fattr3 {
        ftype: ftype3::NF3REG,
        fileid: id,
        size: id * 10,
        mtime: nfstime3 { seconds: time, nseconds: 1 },
        ctime: nfstime3 { seconds: time, nseconds: 2 },
        ..fattr3::default()
    }
}

fn pre(a: fattr3) -> pre_op_attr {
    pre_op_attr::attributes(wcc_attr { size: a.size, mtime: a.mtime, ctime: a.ctime })
}

const IO: nfsstat3 = nfsstat3::NFS3ERR_IO;

fn sides(body: &[u8], at: usize) -> (wcc_data, usize) {
    wcc_data::deserialize(body, at).unwrap()
}

#[test]
fn status_of_an_answer() {
    assert_eq!(status(&Ok::<u8, nfsstat3>(1)), nfsstat3::NFS3_OK);
    assert_eq!(status(&Err::<u8, nfsstat3>(IO)), IO);
    assert_eq!(refuse_attr(IO), vec![0, 0, 0, 5, 0, 0, 0, 0]);
    assert_eq!(refuse_link(IO), vec![0, 0, 0, 5, 0, 0, 0, 0, 0, 0, 0, 0, 0, 0, 0, 0]);
    assert_eq!(refuse_rename(IO).len(), 20);
}

#[test]
fn a_change_reports_each_side_by_itself() {
    let (a, b) = (attr(1, 5), attr(1, 6));
    let cases: [(Attr, Attr, wcc_data); 4] = [
        (Ok(a), Ok(b), wcc_data { before: pre(a), after: post_op_attr::attributes(b) }),
        (Err(IO), Ok(b), wcc_data { before: pre_op_attr::Void, after: post_op_attr::attributes(b) }),
        (Ok(a), Err(IO), wcc_data { before: pre(a), after: post_op_attr::Void }),
        (Err(IO), Err(IO), wcc_data::default()),
    ];
    for (before, after, expect) in cases {
        for stat in [nfsstat3::NFS3_OK, nfsstat3::NFS3ERR_NOENT] {
            let body = change_body(stat, &before, &after);
            assert_eq!(nfsstat3::deserialize(&body, 0), Ok((stat, 4)));
            assert_eq!(sides(&body, 4), (expect, body.len()));
        }
        // What the change itself returned is not reported.
        let body = write_body(9, [7; 8], &before, &Ok(attr(1, 99)), &after);
        let (res, end) = WRITE3resok::deserialize(&body, 4).unwrap();
        assert_eq!(end, body.len());
        assert_eq!(res, WRITE3resok { file_wcc: expect, count: 9, committed: stable_how::FILE_SYNC, verf: [7; 8] });
        let body = write_body(9, [7; 8], &before, &Err(IO), &after);
        assert_eq!(nfsstat3::deserialize(&body, 0), Ok((IO, 4)));
        assert_eq!(sides(&body, 4), (expect, body.len()));
        let body = commit_body([3; 8], &before, &Ok(attr(1, 99)), &after);
        assert_eq!(COMMIT3resok::deserialize(&body, 4), Ok((COMMIT3resok { file_wcc: expect, verf: [3; 8] }, body.len())));
        let body = commit_body([3; 8], &before, &Err(IO), &after);
        assert_eq!(sides(&body, 4), (expect, body.len()));
        let body = setattr_body(&sattrguard3::Void, &before, &Ok(attr(1, 99)), &after);
        assert_eq!(nfsstat3::deserialize(&body, 0), Ok((nfsstat3::NFS3_OK, 4)));
        assert_eq!(sides(&body, 4), (expect, body.len()));
        let body = rename_body(IO, &before, &after, &after, &before);
        let (w1, at) = sides(&body, 4);
        assert_eq!(w1, expect);
        assert_eq!(sides(&body, at).1, body.len());
    }
}

#[test]
fn a_guard_that_does_not_hold_sets_nothing() {
    let a = attr(1, 5);
    let wrong = sattrguard3::obj_ctime(nfstime3 { seconds: 5, nseconds: 3 });
    let right = sattrguard3::obj_ctime(a.ctime);
    let refused = vec![0, 0, 0x27, 0x12, 0, 0, 0, 0, 0, 0, 0, 0];
    assert_eq!(setattr_body(&wrong, &Ok(a), &Ok(a), &Ok(a)), refused);
    // Without attributes the guard has nothing to go by, and the reply
    // says why there are none.
    assert_eq!(
        setattr_body(&right, &Err(IO), &Ok(a), &Ok(a)),
        vec![0, 0, 0, 5, 0, 0, 0, 0, 0, 0, 0, 0]
    );
    let body = setattr_body(&right, &Ok(a), &Err(IO), &Ok(a));
    assert_eq!(nfsstat3::deserialize(&body, 0), Ok((IO, 4)));
    assert_eq!(sides(&body, 4).0, wcc_data { before: pre(a), after: post_op_attr::attributes(a) });
}

#[test]
fn what_was_made_comes_with_handle_and_attributes() {
    let (a, b) = (attr(1, 5), attr(1, 6));
    let handle = nfs_fh3 { data: vec![4; 16] };
    let body = made_body(Ok((handle.clone(), post_op_attr::attributes(attr(9, 1)))), &Ok(a), &Ok(b));
    assert_eq!(nfsstat3::deserialize(&body, 0), Ok((nfsstat3::NFS3_OK, 4)));
    let (h, at) = post_op_fh3::deserialize(&body, 4).unwrap();
    assert_eq!(h, post_op_fh3::handle(handle.clone()));
    let (o, at) = post_op_attr::deserialize(&body, at).unwrap();
    assert_eq!(o, post_op_attr::attributes(attr(9, 1)));
    assert_eq!(sides(&body, at), (wcc_data { before: pre(a), after: post_op_attr::attributes(b) }, body.len()));
    assert_eq!(made_body(Err(IO), &Ok(a), &Ok(b)), change_body(IO, &Ok(a), &Ok(b)));

    let made = || Ok((handle.clone(), post_op_attr::Void));
    assert_eq!(create_body(true, made(), &Ok(a), &Ok(b)), change_body(nfsstat3::NFS3ERR_EXIST, &Ok(a), &Ok(b)));
    assert_eq!(create_body(false, made(), &Ok(a), &Ok(b)), made_body(made(), &Ok(a), &Ok(b)));
    assert_eq!(create_body(false, Err(IO), &Err(IO), &Ok(b)), change_body(IO, &Err(IO), &Ok(b)));
}

#[test]
fn link_reports_the_file_by_what_link_returned_or_by_getattr() {
    let (f, g, d) = (attr(2, 5), attr(2, 6), attr(1, 7));
    let body = link_body(&Ok(f), &Ok(g), &Ok(d), &Ok(d));
    assert_eq!(nfsstat3::deserialize(&body, 0), Ok((nfsstat3::NFS3_OK, 4)));
    assert_eq!(post_op_attr::deserialize(&body, 4).unwrap().0, post_op_attr::attributes(f));
    let body = link_body(&Err(IO), &Ok(g), &Err(IO), &Ok(d));
    assert_eq!(nfsstat3::deserialize(&body, 0), Ok((IO, 4)));
    let (file, at) = post_op_attr::deserialize(&body, 4).unwrap();
    assert_eq!(file, post_op_attr::attributes(g));
    assert_eq!(sides(&body, at), (wcc_data { before: pre_op_attr::Void, after: post_op_attr::attributes(d) }, body.len()));
    let body = link_body(&Err(IO), &Err(IO), &Err(IO), &Err(IO));
    assert_eq!(body, refuse_link(IO));
}

#[test]
fn results_of_reading() {
    let a = attr(3, 5);
    let mut ok = vec![0, 0, 0, 0];
    a.serialize(&mut ok);
    assert_eq!(getattr_body(&Ok(a)), ok);
    assert_eq!(getattr_body(&Err(IO)), vec![0, 0, 0, 5]);

    let body = access_body(&Ok(a), Capabilities::ReadOnly, 0x3f);
    assert_eq!(decode_u32(&body, 92), Ok((0x23, 96)));
    let body = access_body(&Ok(a), Capabilities::ReadWrite, 0x3f);
    assert_eq!(decode_u32(&body, 92), Ok((0x3f, 96)));
    assert_eq!(access_body(&Err(IO), Capabilities::ReadWrite, 0x3f), refuse_attr(IO));

    let handle = nfs_fh3 { data: vec![9; 16] };
    let body = lookup_body(&Ok((handle.clone(), Err(IO))), &Ok(a));
    let (h, at) = nfs_fh3::deserialize(&body, 4).unwrap();
    assert_eq!(h, handle);
    let (obj, at) = post_op_attr::deserialize(&body, at).unwrap();
    let (dir, at) = post_op_attr::deserialize(&body, at).unwrap();
    assert_eq!((obj, dir, at), (post_op_attr::Void, post_op_attr::attributes(a), body.len()));
    let body = lookup_body(&Err(nfsstat3::NFS3ERR_NOENT), &Ok(a));
    assert_eq!(nfsstat3::deserialize(&body, 0), Ok((nfsstat3::NFS3ERR_NOENT, 4)));
    assert_eq!(post_op_attr::deserialize(&body, 4), Ok((post_op_attr::attributes(a), body.len())));

    let body = read_body(&Err(IO), Ok((b"abc".to_vec(), true))).unwrap();
    assert_eq!(
        READ3resok::deserialize(&body, 4),
        Ok((READ3resok { file_attributes: post_op_attr::Void, count: 3, eof: true, data: b"abc".to_vec() }, body.len()))
    );
    let body = read_body(&Ok(a), Err(IO)).unwrap();
    assert_eq!(post_op_attr::deserialize(&body, 4), Ok((post_op_attr::attributes(a), body.len())));

    let body = readlink_body(&Ok(a), &Ok(nfsstring(b"to".to_vec()))).unwrap();
    assert_eq!(nfsstring::deserialize(&body, 92), Ok((nfsstring(b"to".to_vec()), body.len())));
    assert_eq!(readlink_body(&Err(IO), &Ok(nfsstring(b"to".to_vec()))), Ok(refuse_attr(IO)));
    let body = readlink_body(&Ok(a), &Err(IO)).unwrap();
    assert_eq!(nfsstat3::deserialize(&body, 0), Ok((IO, 4)));
    assert_eq!(post_op_attr::deserialize(&body, 4), Ok((post_op_attr::attributes(a), body.len())));

    let info = default_fsinfo(post_op_attr::Void);
    let body = fsinfo_body(&Ok(info));
    assert_eq!(fsinfo3::deserialize(&body, 4), Ok((info, body.len())));
    assert_eq!(fsinfo_body(&Err(IO)), vec![0, 0, 0, 5]);
}

#[test]
fn results_of_listing() {
    let a = attr(1, 5);
    let entry = |id: u64| DirEntry { fileid: id, name: nfsstring(format!("n{}", id).into_bytes()), attr: attr(id, 1) };
    let listing = Ok(ReadDirResult { entries: vec![entry(4), entry(5)], end: true });
    let body = readdir_body(&Ok(a), &listing, 4096);
    assert_eq!(body.len(), 100 + 2 * (4 + 8 + 8 + 8) + 8);
    assert_eq!(decode_bool(&body, body.len() - 4), Ok((true, body.len())));
    let body = readdir_body(&Ok(a), &Err(IO), 4096);
    assert_eq!(nfsstat3::deserialize(&body, 0), Ok((IO, 4)));
    assert_eq!(post_op_attr::deserialize(&body, 4), Ok((post_op_attr::attributes(a), body.len())));

    let handles = vec![nfs_fh3 { data: vec![4; 16] }, nfs_fh3 { data: vec![5; 16] }];
    let body = readdirplus_body(&Err(IO), &listing, &handles, 4096, 4096);
    assert_eq!(body.len(), 16 + 2 * (28 + 88 + 24) + 8);
    assert_eq!(&body[16 + 28 + 88 + 8..16 + 28 + 88 + 24], &[4; 16]);
    let body = readdirplus_body(&Err(IO), &listing, &handles, 4096, 16 + 24 + 140 + 128);
    assert_eq!(body.len(), 16 + 8);
    let body = readdirplus_body(&Err(IO), &listing, &handles, 4096, 16 + 24 + 140 + 129);
    assert_eq!(body.len(), 16 + 140 + 8);
    let body = readdirplus_body(&Ok(a), &Err(IO), &vec![], 4096, 4096);
    assert_eq!(nfsstat3::deserialize(&body, 0), Ok((IO, 4)));
}

#[test]
fn result_of_mounting() {
    assert_eq!(mnt_body(None), vec![0, 0, 0, 2]);
    let body = mnt_body(Some(nfs_fh3 { data: vec![6; 16] }));
    assert_eq!(mountstat3::deserialize(&body, 0), Ok((mountstat3::MNT3_OK, 4)));
    assert_eq!(
        mountres3_ok::deserialize(&body, 4),
        Ok((mountres3_ok { fhandle: vec![6; 16], auth_flavors: vec![0, 1] }, body.len()))
    );
}

/// A file system with a root directory and nothing in it.
struct Bare;

impl NFSFileSystem for Bare {
    fn generation(&self) -> u64 {
        77
    }

    fn capabilities(&self) -> Capabilities {
        Capabilities::ReadOnly
    }

    fn root_dir(&self) -> fileid3 {
        1
    }

    fn lookup(&self, _: fileid3, _: &filename3) -> Result<fileid3, nfsstat3> {
        Err(nfsstat3::NFS3ERR_NOENT)
    }

    fn getattr(&self, id: fileid3) -> Result<fattr3, nfsstat3> {
        if id == 1 {
            Ok(attr(1, 1))
        } else {
            Err(nfsstat3::NFS3ERR_NOENT)
        }
    }

    fn setattr(&self, _: fileid3, _: sattr3) -> Result<fattr3, nfsstat3> {
        Err(nfsstat3::NFS3ERR_ROFS)
    }

    fn read(&self, _: fileid3, _: u64, _: u32) -> Result<(Vec<u8>, bool), nfsstat3> {
        Err(nfsstat3::NFS3ERR_ISDIR)
    }

    fn write(&self, _: fileid3, _: u64, _: &[u8]) -> Result<fattr3, nfsstat3> {
        Err(nfsstat3::NFS3ERR_ROFS)
    }

    fn create(&self, _: fileid3, _: &filename3, _: sattr3) -> Result<(fileid3, fattr3), nfsstat3> {
        Err(nfsstat3::NFS3ERR_ROFS)
    }

    fn create_exclusive(&self, _: fileid3, _: &filename3) -> Result<fileid3, nfsstat3> {
        Err(nfsstat3::NFS3ERR_ROFS)
    }

    fn mkdir(&self, _: fileid3, _: &filename3) -> Result<(fileid3, fattr3), nfsstat3> {
        Err(nfsstat3::NFS3ERR_ROFS)
    }

    fn remove(&self, _: fileid3, _: &filename3) -> Result<(), nfsstat3> {
        Err(nfsstat3::NFS3ERR_ROFS)
    }

    fn rename(&self, _: fileid3, _: &filename3, _: fileid3, _: &filename3) -> Result<(), nfsstat3> {
        Err(nfsstat3::NFS3ERR_ROFS)
    }

    fn readdir(&self, _: fileid3, _: fileid3, _: usize) -> Result<ReadDirResult, nfsstat3> {
        Ok(ReadDirResult { entries: vec![], end: true })
    }

    fn symlink(&self, _: fileid3, _: &filename3, _: &nfspath3, _: &sattr3) -> Result<(fileid3, fattr3), nfsstat3> {
        Err(nfsstat3::NFS3ERR_ROFS)
    }

    fn readlink(&self, _: fileid3) -> Result<nfspath3, nfsstat3> {
        Err(nfsstat3::NFS3ERR_INVAL)
    }

    fn link(&self, _: fileid3, _: fileid3, _: &filename3) -> Result<fattr3, nfsstat3> {
        Err(nfsstat3::NFS3ERR_ROFS)
    }

    fn mknod(&self, _: fileid3, _: &filename3, _: ftype3, _: specdata3, _: &sattr3) -> Result<(fileid3, fattr3), nfsstat3> {
        Err(nfsstat3::NFS3ERR_ROFS)
    }

    fn commit(&self, _: fileid3, _: u64, _: u32) -> Result<fattr3, nfsstat3> {
        Err(nfsstat3::NFS3ERR_ROFS)
    }
}

fn request(xid: u32, rpcvers: u32, prog: u32, proc: u32) -> (Vec<u8>, call_body) {
    let call = call_body {
        rpcvers,
        prog,
        vers: 3,
        proc,
        cred: opaque_auth::default(),
        verf: opaque_auth::default(),
    };
    let mut out = Vec::new();
    rpc_msg { xid, body: rpc_body::CALL(call.clone()) }.serialize(&mut out);
    (out, call)
}

#[test]
fn a_record_is_begun_and_then_answered() {
    let mut ctx = Context {
        local_port: 1,
        client_addr: "c".to_string(),
        auth: auth_unix::default(),
        vfs: Bare,
        export_name: "/".to_string(),
    };
    let mut tracker = TransactionTracker::new(100);
    let (mut record, call) = request(9, 2, 100003, 0);
    record.extend_from_slice(b"args");
    let mut out = vec![1];
    let begun = begin_rpc(&record, &mut out, &mut ctx, &tracker, 5);
    assert_eq!(begun, Ok(Begun::Call { xid: 9, call: call.clone(), args: record.len() - 4 }));
    assert_eq!(out, vec![1]);
    // Beginning marks nothing.
    assert!(!tracker.is_retransmission(9, &ctx.client_addr, 5));
    assert_eq!(
        answer_call(9, &call, b"args", &mut out, &ctx),
        Ok(Handled { replied: true, mount_signal: None })
    );
    assert_eq!(out.len(), 25);
    assert_eq!(&out[1..5], &[0, 0, 0, 9]);

    tracker.mark_processed(9, &ctx.client_addr, 5);
    let mut out = vec![1];
    assert_eq!(begin_rpc(&record, &mut out, &mut ctx, &tracker, 6), Ok(Begun::Repeated));
    assert_eq!(out, vec![1]);

    let (record, _) = request(10, 3, 100003, 0);
    let mut out = Vec::new();
    assert_eq!(begin_rpc(&record, &mut out, &mut ctx, &tracker, 6), Ok(Begun::Denied));
    let mut denial = Vec::new();
    rpc_vers_mismatch(10).serialize(&mut denial);
    assert_eq!(out, denial);
    assert_eq!(&out[out.len() - 8..], &[0, 0, 0, 2, 0, 0, 0, 2]);

    let mut out = Vec::new();
    assert_eq!(begin_rpc(&record[..7], &mut out, &mut ctx, &tracker, 6), Err(RpcError::Decode));
    assert_eq!(begin_rpc(&denial, &mut out, &mut ctx, &tracker, 6), Err(RpcError::NotACall));
    assert!(out.is_empty());

    // A program that is not served is answered all the same.
    let (_, call) = request(11, 2, 4242, 0);
    let mut out = Vec::new();
    assert_eq!(
        answer_call(11, &call, b"", &mut out, &ctx),
        Ok(Handled { replied: true, mount_signal: None })
    );
    assert_eq!(&out[..4], &[0, 0, 0, 11]);
}
