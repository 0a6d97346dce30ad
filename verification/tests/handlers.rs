//! The procedure handlers, against a small file system in memory.

use nfsserve::protocol::nfs::mount::mnt::mount_path;
use nfsserve::protocol::nfs::mount::{
    handle_mount, mountproc3_export, mountproc3_mnt, mountproc3_null, mountproc3_umnt,
    mountproc3_umnt_all,
};
use nfsserve::protocol::nfs::portmap::{handle_portmap, pmapproc_getport, pmapproc_null};
use nfsserve::protocol::nfs::v3::access::grant_access;
use nfsserve::protocol::nfs::v3::setattr::check_guard;
use nfsserve::protocol::nfs::v3::{
    handle_nfs, nfsproc3_access, nfsproc3_commit, nfsproc3_create, nfsproc3_fsinfo,
    nfsproc3_fsstat, nfsproc3_getattr, nfsproc3_link, nfsproc3_lookup, nfsproc3_mkdir,
    nfsproc3_mknod, nfsproc3_null, nfsproc3_pathconf, nfsproc3_read, nfsproc3_readdir,
    nfsproc3_readdirplus, nfsproc3_readlink, nfsproc3_remove, nfsproc3_rename,
    nfsproc3_setattr, nfsproc3_symlink, nfsproc3_write, pre_op, wcc,
};
use nfsserve::protocol::rpc::{Context, RpcError};
use nfsserve::vfs::{
    handle_of_id, post_op, Capabilities, DirEntry, NFSFileSystem, ReadDirResult,
};
use nfsserve::xdr::mount::{mountres3_ok, mountstat3};
use nfsserve::xdr::nfs3::{
    createhow3, devicedata3, devicetype3, diropargs3, entry3, entryplus3, fattr3, fileid3,
    filename3, fsinfo3, ftype3, mknoddata3, nfs_fh3, nfspath3, nfsstat3, nfsstring, nfstime3,
    post_op_attr, post_op_fh3, pre_op_attr, sattr3, sattrguard3, set_size3, specdata3,
    stable_how, symlinkdata3, wcc_attr, wcc_data, COMMIT3args, COMMIT3resok, CREATE3args,
    FSSTAT3resok, LINK3args, MKDIR3args, MKNOD3args, PATHCONF3resok, READ3args, READ3resok,
    READDIR3args, READDIRPLUS3args, RENAME3args, SETATTR3args, SYMLINK3args, WRITE3args,
    WRITE3resok, ACCESS3_DELETE, ACCESS3_EXECUTE, ACCESS3_EXTEND, ACCESS3_LOOKUP,
    ACCESS3_MODIFY, ACCESS3_READ,
};
use nfsserve::xdr::portmap::mapping;
use nfsserve::xdr::rpc::{
    accept_body, auth_unix, call_body, garbage_args_reply_message, make_success_reply,
    mismatch_info, opaque_auth, proc_unavail_reply_message, prog_mismatch_reply_message,
    reply_body, rpc_body, rpc_msg,
};
use nfsserve::xdr::{decode_bool, decode_fixed8, decode_opaque, decode_u32, encode_opaque, encode_u32};
use std::cell::RefCell;

const GENERATION: u64 = 1_700_000_000_000;

#[derive(Clone)]
struct Node {
    id: fileid3,
    parent: fileid3,
    name: Vec<u8>,
    attr: fattr3,
    data: Vec<u8>,
    target: Vec<u8>,
}

/// A file system in memory. It counts the calls that change it.
struct MemFs {
    caps: Capabilities,
    nodes: RefCell<Vec<Node>>,
    clock: RefCell<u32>,
    calls: RefCell<Vec<&'static str>>,
}

/// What `write`, `setattr` and `commit` return in place of the
/// attributes: replies must hold what `getattr` says afterwards.
fn stale(attr: fattr3) -> fattr3 {
    fattr3 { nlink: 77, ..attr }
}

fn attr_of(ftype: ftype3, id: fileid3, size: u64, time: u32) -> fattr3 {
    fattr3 {
        ftype,
        mode: 0o755,
        nlink: 1,
        uid: 507,
        gid: 507,
        size,
        used: size,
        rdev: specdata3::default(),
        fsid: 0,
        fileid: id,
        atime: nfstime3 { seconds: time, nseconds: 0 },
        mtime: nfstime3 { seconds: time, nseconds: 7 },
        ctime: nfstime3 { seconds: time, nseconds: 9 },
    }
}

impl MemFs {
    /// `/` (1) holds `a.txt` (2), `dir` (3) and `empty` (5); `dir` holds
    /// `b.txt` (4).
    fn new(caps: Capabilities) -> MemFs {
        let node = |id, parent, name: &[u8], ftype, data: &[u8]| Node {
            id,
            parent,
            name: name.to_vec(),
            attr: attr_of(ftype, id, data.len() as u64, 100),
            data: data.to_vec(),
            target: vec![],
        };
        MemFs {
            caps,
            nodes: RefCell::new(vec![
                node(1, 0, b"", ftype3::NF3DIR, b""),
                node(2, 1, b"a.txt", ftype3::NF3REG, b"hello world"),
                node(3, 1, b"dir", ftype3::NF3DIR, b""),
                node(4, 3, b"b.txt", ftype3::NF3REG, b"Greetings"),
                node(5, 1, b"empty", ftype3::NF3DIR, b""),
            ]),
            clock: RefCell::new(100),
            calls: RefCell::new(vec![]),
        }
    }

    fn tick(&self) -> u32 {
        let mut c = self.clock.borrow_mut();
        *c += 1;
        *c
    }

    fn touch(&self, id: fileid3) {
        let t = self.tick();
        for n in self.nodes.borrow_mut().iter_mut() {
            if n.id == id {
                n.attr.mtime.seconds = t;
                n.attr.ctime.seconds = t;
            }
        }
    }

    fn next_id(&self) -> fileid3 {
        self.nodes.borrow().iter().map(|n| n.id).max().unwrap() + 1
    }

    fn add(&self, parent: fileid3, name: &[u8], ftype: ftype3) -> Result<(fileid3, fattr3), nfsstat3> {
        if self.getattr(parent)?.ftype != ftype3::NF3DIR {
            return Err(nfsstat3::NFS3ERR_NOTDIR);
        }
        if self.lookup(parent, &nfsstring(name.to_vec())).is_ok() {
            return Err(nfsstat3::NFS3ERR_EXIST);
        }
        let id = self.next_id();
        let t = self.tick();
        let attr = attr_of(ftype, id, 0, t);
        self.nodes.borrow_mut().push(Node {
            id,
            parent,
            name: name.to_vec(),
            attr,
            data: vec![],
            target: vec![],
        });
        self.touch(parent);
        Ok((id, attr))
    }

    fn count(&self, call: &str) -> usize {
        self.calls.borrow().iter().filter(|c| **c == call).count()
    }
}

impl NFSFileSystem for MemFs {
    fn generation(&self) -> u64 {
        GENERATION
    }

    fn capabilities(&self) -> Capabilities {
        self.caps
    }

    fn root_dir(&self) -> fileid3 {
        1
    }

    fn lookup(&self, dirid: fileid3, filename: &filename3) -> Result<fileid3, nfsstat3> {
        self.getattr(dirid)?;
        self.nodes
            .borrow()
            .iter()
            .find(|n| n.parent == dirid && n.name == filename.0)
            .map(|n| n.id)
            .ok_or(nfsstat3::NFS3ERR_NOENT)
    }

    fn getattr(&self, id: fileid3) -> Result<fattr3, nfsstat3> {
        self.nodes.borrow().iter().find(|n| n.id == id).map(|n| n.attr).ok_or(nfsstat3::NFS3ERR_NOENT)
    }

    fn setattr(&self, id: fileid3, setattr: sattr3) -> Result<fattr3, nfsstat3> {
        self.calls.borrow_mut().push("setattr");
        self.getattr(id)?;
        if let set_size3::size(s) = setattr.size {
            if s > 1000 {
                return Err(nfsstat3::NFS3ERR_FBIG);
            }
            for n in self.nodes.borrow_mut().iter_mut() {
                if n.id == id {
                    n.data.resize(s as usize, 0);
                    n.attr.size = s;
                }
            }
        }
        self.touch(id);
        self.getattr(id).map(stale)
    }

    fn read(&self, id: fileid3, offset: u64, count: u32) -> Result<(Vec<u8>, bool), nfsstat3> {
        let nodes = self.nodes.borrow();
        let n = nodes.iter().find(|n| n.id == id).ok_or(nfsstat3::NFS3ERR_NOENT)?;
        if n.attr.ftype == ftype3::NF3DIR {
            return Err(nfsstat3::NFS3ERR_ISDIR);
        }
        let start = (offset as usize).min(n.data.len());
        let end = (start + count as usize).min(n.data.len());
        Ok((n.data[start..end].to_vec(), end == n.data.len()))
    }

    fn write(&self, id: fileid3, offset: u64, data: &[u8]) -> Result<fattr3, nfsstat3> {
        self.calls.borrow_mut().push("write");
        if self.getattr(id)?.ftype == ftype3::NF3DIR {
            return Err(nfsstat3::NFS3ERR_ISDIR);
        }
        for n in self.nodes.borrow_mut().iter_mut() {
            if n.id == id {
                let end = offset as usize + data.len();
                if n.data.len() < end {
                    n.data.resize(end, 0);
                }
                n.data[offset as usize..end].copy_from_slice(data);
                n.attr.size = n.data.len() as u64;
            }
        }
        self.touch(id);
        self.getattr(id).map(stale)
    }

    fn create(&self, dirid: fileid3, filename: &filename3, _attr: sattr3) -> Result<(fileid3, fattr3), nfsstat3> {
        self.calls.borrow_mut().push("create");
        match self.lookup(dirid, filename) {
            Ok(id) => Ok((id, self.getattr(id)?)),
            Err(_) => self.add(dirid, &filename.0, ftype3::NF3REG),
        }
    }

    fn create_exclusive(&self, dirid: fileid3, filename: &filename3) -> Result<fileid3, nfsstat3> {
        self.calls.borrow_mut().push("create_exclusive");
        self.add(dirid, &filename.0, ftype3::NF3REG).map(|p| p.0)
    }

    fn mkdir(&self, dirid: fileid3, dirname: &filename3) -> Result<(fileid3, fattr3), nfsstat3> {
        self.calls.borrow_mut().push("mkdir");
        self.add(dirid, &dirname.0, ftype3::NF3DIR)
    }

    fn remove(&self, dirid: fileid3, filename: &filename3) -> Result<(), nfsstat3> {
        self.calls.borrow_mut().push("remove");
        let id = self.lookup(dirid, filename)?;
        if self.nodes.borrow().iter().any(|n| n.parent == id) {
            return Err(nfsstat3::NFS3ERR_NOTEMPTY);
        }
        self.nodes.borrow_mut().retain(|n| n.id != id);
        self.touch(dirid);
        Ok(())
    }

    fn rename(
        &self,
        from_dirid: fileid3,
        from_filename: &filename3,
        to_dirid: fileid3,
        to_filename: &filename3,
    ) -> Result<(), nfsstat3> {
        self.calls.borrow_mut().push("rename");
        let id = self.lookup(from_dirid, from_filename)?;
        self.getattr(to_dirid)?;
        for n in self.nodes.borrow_mut().iter_mut() {
            if n.id == id {
                n.parent = to_dirid;
                n.name = to_filename.0.clone();
            }
        }
        self.touch(from_dirid);
        self.touch(to_dirid);
        Ok(())
    }

    fn readdir(&self, dirid: fileid3, start_after: fileid3, max_entries: usize) -> Result<ReadDirResult, nfsstat3> {
        if self.getattr(dirid)?.ftype != ftype3::NF3DIR {
            return Err(nfsstat3::NFS3ERR_NOTDIR);
        }
        let nodes = self.nodes.borrow();
        let all: Vec<&Node> = nodes.iter().filter(|n| n.parent == dirid).collect();
        let from = if start_after == 0 {
            0
        } else {
            match all.iter().position(|n| n.id == start_after) {
                Some(p) => p + 1,
                None => return Err(nfsstat3::NFS3ERR_BAD_COOKIE),
            }
        };
        let page: Vec<DirEntry> = all[from..]
            .iter()
            .take(max_entries)
            .map(|n| DirEntry { fileid: n.id, name: nfsstring(n.name.clone()), attr: n.attr })
            .collect();
        let end = from + page.len() == all.len();
        Ok(ReadDirResult { entries: page, end })
    }

    fn symlink(
        &self,
        dirid: fileid3,
        linkname: &filename3,
        symlink: &nfspath3,
        _attr: &sattr3,
    ) -> Result<(fileid3, fattr3), nfsstat3> {
        self.calls.borrow_mut().push("symlink");
        let (id, attr) = self.add(dirid, &linkname.0, ftype3::NF3LNK)?;
        for n in self.nodes.borrow_mut().iter_mut() {
            if n.id == id {
                n.target = symlink.0.clone();
            }
        }
        Ok((id, attr))
    }

    fn readlink(&self, id: fileid3) -> Result<nfspath3, nfsstat3> {
        let nodes = self.nodes.borrow();
        let n = nodes.iter().find(|n| n.id == id).ok_or(nfsstat3::NFS3ERR_NOENT)?;
        if n.attr.ftype != ftype3::NF3LNK {
            return Err(nfsstat3::NFS3ERR_INVAL);
        }
        Ok(nfsstring(n.target.clone()))
    }

    fn link(&self, file_id: fileid3, link_dir_id: fileid3, link_name: &filename3) -> Result<fattr3, nfsstat3> {
        self.calls.borrow_mut().push("link");
        let attr = self.getattr(file_id)?;
        if attr.ftype == ftype3::NF3DIR {
            return Err(nfsstat3::NFS3ERR_ISDIR);
        }
        if self.lookup(link_dir_id, link_name).is_ok() {
            return Err(nfsstat3::NFS3ERR_EXIST);
        }
        for n in self.nodes.borrow_mut().iter_mut() {
            if n.id == file_id {
                n.attr.nlink += 1;
            }
        }
        self.touch(link_dir_id);
        self.getattr(file_id)
    }

    fn mknod(
        &self,
        dir_id: fileid3,
        name: &filename3,
        ftype: ftype3,
        specdata: specdata3,
        _attrs: &sattr3,
    ) -> Result<(fileid3, fattr3), nfsstat3> {
        self.calls.borrow_mut().push("mknod");
        if ftype == ftype3::NF3REG || ftype == ftype3::NF3DIR {
            return Err(nfsstat3::NFS3ERR_BADTYPE);
        }
        let (id, _) = self.add(dir_id, &name.0, ftype)?;
        for n in self.nodes.borrow_mut().iter_mut() {
            if n.id == id {
                n.attr.rdev = specdata;
            }
        }
        Ok((id, self.getattr(id)?))
    }

    fn commit(&self, file_id: fileid3, _offset: u64, _count: u32) -> Result<fattr3, nfsstat3> {
        self.calls.borrow_mut().push("commit");
        let attr = self.getattr(file_id)?;
        if attr.ftype == ftype3::NF3DIR {
            return Err(nfsstat3::NFS3ERR_ISDIR);
        }
        Ok(stale(attr))
    }
}

fn context(caps: Capabilities) -> Context<MemFs> {
    Context {
        local_port: 11111,
        client_addr: "127.0.0.1:999".to_string(),
        auth: auth_unix::default(),
        vfs: MemFs::new(caps),
        export_name: "/export".to_string(),
    }
}

fn fh(id: fileid3) -> nfs_fh3 {
    handle_of_id(GENERATION, id)
}

fn name(s: &[u8]) -> nfsstring {
    nfsstring(s.to_vec())
}

fn dirop(dir: fileid3, n: &[u8]) -> diropargs3 {
    diropargs3 { dir: fh(dir), name: name(n) }
}

/// Checks the envelope of a reply that carries a result, and returns
/// where the result starts.
fn result_of(out: &[u8], xid: u32) -> usize {
    let mut env = Vec::new();
    make_success_reply(xid).serialize(&mut env);
    assert_eq!(env.len(), 24);
    assert!(out.len() >= 24);
    assert_eq!(&out[..24], &env[..]);
    24
}

fn status(out: &[u8], xid: u32) -> (nfsstat3, usize) {
    let at = result_of(out, xid);
    nfsstat3::deserialize(out, at).unwrap()
}

fn pre(attr: fattr3) -> pre_op_attr {
    pre_op_attr::attributes(wcc_attr { size: attr.size, mtime: attr.mtime, ctime: attr.ctime })
}

// ---------------------------------------------------------------------
// NULL
// ---------------------------------------------------------------------

#[test]
fn null_replies_with_an_empty_result() {
    let mut out = vec![1, 2, 3];
    assert_eq!(nfsproc3_null(7, b"ignored", &mut out), Ok(()));
    assert_eq!(&out[..3], &[1, 2, 3]);
    assert_eq!(result_of(&out[3..], 7), 24);
    assert_eq!(out.len(), 27);
    let mut out = Vec::new();
    assert_eq!(mountproc3_null(8, b"", &mut out), Ok(()));
    assert_eq!(out.len(), result_of(&out, 8));
    let mut out = Vec::new();
    assert_eq!(pmapproc_null(9, b"", &mut out), Ok(()));
    assert_eq!(out.len(), result_of(&out, 9));
}

// ---------------------------------------------------------------------
// PORTMAP
// ---------------------------------------------------------------------

#[test]
fn getport_reports_the_port_of_the_server() {
    let ctx = context(Capabilities::ReadWrite);
    let mut args = Vec::new();
    mapping { prog: 100003, vers: 3, prot: 6, port: 0 }.serialize(&mut args);
    let mut out = Vec::new();
    assert_eq!(pmapproc_getport(5, &args, &mut out, &ctx), Ok(()));
    let at = result_of(&out, 5);
    assert_eq!(decode_u32(&out, at), Ok((11111, 28)));
    assert_eq!(out.len(), 28);
}

#[test]
fn getport_with_short_arguments_is_an_error() {
    let ctx = context(Capabilities::ReadWrite);
    let mut out = vec![4];
    assert_eq!(pmapproc_getport(5, &[0; 15], &mut out, &ctx), Err(RpcError::Decode));
    assert_eq!(out, vec![4]);
}

fn call(prog: u32, vers: u32, proc: u32) -> call_body {
    call_body { rpcvers: 2, prog, vers, proc, cred: opaque_auth::default(), verf: opaque_auth::default() }
}

fn message(m: rpc_msg) -> Vec<u8> {
    let mut out = Vec::new();
    m.serialize(&mut out);
    out
}

#[test]
fn portmap_dispatch() {
    let ctx = context(Capabilities::ReadWrite);
    let mut args = Vec::new();
    mapping { prog: 100005, vers: 3, prot: 17, port: 9 }.serialize(&mut args);

    let mut out = Vec::new();
    assert_eq!(handle_portmap(1, &call(100000, 2, 3), &args, &mut out, &ctx), Ok(()));
    assert_eq!(decode_u32(&out, result_of(&out, 1)), Ok((11111, 28)));

    let mut out = Vec::new();
    assert_eq!(handle_portmap(2, &call(100000, 2, 0), &args, &mut out, &ctx), Ok(()));
    assert_eq!(out.len(), result_of(&out, 2));

    for proc in [1, 2, 4, 5, 6, 77] {
        let mut out = Vec::new();
        assert_eq!(handle_portmap(3, &call(100000, 2, proc), &args, &mut out, &ctx), Ok(()));
        assert_eq!(out, message(proc_unavail_reply_message(3)));
    }

    for vers in [0, 1, 3, 4] {
        let mut out = Vec::new();
        assert_eq!(handle_portmap(4, &call(100000, vers, 3), &args, &mut out, &ctx), Ok(()));
        assert_eq!(out, message(prog_mismatch_reply_message(4, 2)));
    }
}

// ---------------------------------------------------------------------
// MOUNT
// ---------------------------------------------------------------------

fn path_arg(path: &[u8]) -> Vec<u8> {
    let mut args = Vec::new();
    encode_opaque(path, &mut args);
    args
}

#[test]
fn mnt_of_the_export_gives_the_root_handle() {
    let ctx = context(Capabilities::ReadWrite);
    let mut out = Vec::new();
    assert_eq!(mountproc3_mnt(3, &path_arg(b"/export/"), &mut out, &ctx), Ok(Some(true)));
    let at = result_of(&out, 3);
    let (stat, at) = mountstat3::deserialize(&out, at).unwrap();
    assert_eq!(stat, mountstat3::MNT3_OK);
    let (res, at) = mountres3_ok::deserialize(&out, at).unwrap();
    assert_eq!(res.fhandle, fh(1).data);
    assert_eq!(res.auth_flavors, vec![0, 1]);
    assert_eq!(at, out.len());
}

#[test]
fn mnt_of_a_directory_below_the_export() {
    let ctx = context(Capabilities::ReadWrite);
    for path in [&b"/export/dir"[..], b"/export//dir/", b"/export/dir  ", b"/exportdir"] {
        let mut out = Vec::new();
        assert_eq!(mountproc3_mnt(3, &path_arg(path), &mut out, &ctx), Ok(Some(true)));
        let (stat, at) = mountstat3::deserialize(&out, 24).unwrap();
        assert_eq!(stat, mountstat3::MNT3_OK);
        let (res, _) = mountres3_ok::deserialize(&out, at).unwrap();
        assert_eq!(res.fhandle, fh(3).data);
    }
}

#[test]
fn mnt_of_a_wrong_path_is_noent() {
    let ctx = context(Capabilities::ReadWrite);
    for path in [&b"/wrong"[..], b"/expor", b"export", b"", b"/export/missing", b"/export/a.txt/x"] {
        let mut out = Vec::new();
        assert_eq!(mountproc3_mnt(3, &path_arg(path), &mut out, &ctx), Ok(None));
        let at = result_of(&out, 3);
        assert_eq!(mountstat3::deserialize(&out, at), Ok((mountstat3::MNT3ERR_NOENT, 28)));
        assert_eq!(out.len(), 28);
    }
}

#[test]
fn mnt_with_short_arguments_is_an_error() {
    let ctx = context(Capabilities::ReadWrite);
    let mut out = Vec::new();
    assert_eq!(mountproc3_mnt(3, &[0, 0, 0, 9, 1], &mut out, &ctx), Err(RpcError::Decode));
    assert!(out.is_empty());
}

#[test]
fn mount_path_strips_export_slashes_and_space() {
    assert_eq!(mount_path("/export", b"/export"), Some(b"/".to_vec()));
    assert_eq!(mount_path("/export", b"/export/"), Some(b"/".to_vec()));
    assert_eq!(mount_path("/export", b"/export///"), Some(b"/".to_vec()));
    assert_eq!(mount_path("/export", b"/export/a/b"), Some(b"/a/b".to_vec()));
    assert_eq!(mount_path("/export", b"/export//a/b//"), Some(b"/a/b".to_vec()));
    assert_eq!(mount_path("/export", b"/export/ a b \t\n"), Some(b"/a b".to_vec()));
    assert_eq!(mount_path("/export", b"/export/ /x/ /"), Some(b"//x/".to_vec()));
    assert_eq!(mount_path("/export", b"/exportfoo"), Some(b"/foo".to_vec()));
    assert_eq!(
        mount_path("/export", "/export/\u{a0}\u{3000}d\u{e9}\u{2003}".as_bytes()),
        Some("/d\u{e9}".as_bytes().to_vec())
    );
    assert_eq!(mount_path("/export", b"/wrong"), None);
    assert_eq!(mount_path("/export", b"/expor"), None);
    assert_eq!(mount_path("/export", b""), None);
    assert_eq!(mount_path("", b"/a/"), Some(b"/a".to_vec()));
}

#[test]
fn mount_path_takes_bytes_that_are_not_utf8_for_empty() {
    assert_eq!(mount_path("/export", b"/export/\xff"), None);
    assert_eq!(mount_path("", b"/a\xff"), Some(b"/".to_vec()));
}

#[test]
fn umnt_answers_ok_and_signals_false() {
    let mut out = Vec::new();
    assert_eq!(mountproc3_umnt(4, &path_arg(b"/export"), &mut out), Ok(Some(false)));
    let at = result_of(&out, 4);
    assert_eq!(mountstat3::deserialize(&out, at), Ok((mountstat3::MNT3_OK, 28)));
    assert_eq!(out.len(), 28);
    let mut out = Vec::new();
    assert_eq!(mountproc3_umnt(4, &[0, 0], &mut out), Err(RpcError::Decode));
    assert!(out.is_empty());
    let mut out = Vec::new();
    assert_eq!(mountproc3_umnt_all(5, &[], &mut out), Ok(Some(false)));
    let at = result_of(&out, 5);
    assert_eq!(mountstat3::deserialize(&out, at), Ok((mountstat3::MNT3_OK, 28)));
}

#[test]
fn export_lists_the_one_export() {
    let ctx = context(Capabilities::ReadWrite);
    let mut out = Vec::new();
    assert_eq!(mountproc3_export(6, &[], &mut out, &ctx), Ok(()));
    let at = result_of(&out, 6);
    let (more, at) = decode_bool(&out, at).unwrap();
    assert!(more);
    let (path, at) = decode_opaque(&out, at).unwrap();
    assert_eq!(path, b"/export".to_vec());
    let (groups, at) = decode_bool(&out, at).unwrap();
    assert!(!groups);
    let (next, at) = decode_bool(&out, at).unwrap();
    assert!(!next);
    assert_eq!(at, out.len());
}

#[test]
fn mount_dispatch() {
    let ctx = context(Capabilities::ReadWrite);
    let args = path_arg(b"/export");
    let mut out = Vec::new();
    assert_eq!(handle_mount(1, &call(100005, 3, 0), &args, &mut out, &ctx), Ok(None));
    assert_eq!(out.len(), 24);
    let mut out = Vec::new();
    assert_eq!(handle_mount(1, &call(100005, 3, 1), &args, &mut out, &ctx), Ok(Some(true)));
    let mut out = Vec::new();
    assert_eq!(handle_mount(1, &call(100005, 3, 3), &args, &mut out, &ctx), Ok(Some(false)));
    let mut out = Vec::new();
    assert_eq!(handle_mount(1, &call(100005, 3, 4), &args, &mut out, &ctx), Ok(Some(false)));
    let mut out = Vec::new();
    assert_eq!(handle_mount(1, &call(100005, 3, 5), &args, &mut out, &ctx), Ok(None));
    assert!(out.len() > 24);
    for proc in [2, 6, 100] {
        let mut out = Vec::new();
        assert_eq!(handle_mount(1, &call(100005, 3, proc), &args, &mut out, &ctx), Ok(None));
        assert_eq!(out, message(proc_unavail_reply_message(1)));
    }
    let mut out = Vec::new();
    assert_eq!(handle_mount(1, &call(100005, 1, 1), &args, &mut out, &ctx), Ok(None));
    assert_eq!(out, message(prog_mismatch_reply_message(1, 3)));
}

// ---------------------------------------------------------------------
// GETATTR, LOOKUP, ACCESS
// ---------------------------------------------------------------------

fn args_of_handle(id: fileid3) -> Vec<u8> {
    let mut args = Vec::new();
    fh(id).serialize(&mut args);
    args
}

#[test]
fn getattr_gives_the_attributes() {
    let ctx = context(Capabilities::ReadWrite);
    let mut out = Vec::new();
    assert_eq!(nfsproc3_getattr(9, &args_of_handle(2), &mut out, &ctx), Ok(()));
    let (stat, at) = status(&out, 9);
    assert_eq!(stat, nfsstat3::NFS3_OK);
    assert_eq!(fattr3::deserialize(&out, at), Ok((ctx.vfs.getattr(2).unwrap(), out.len())));
}

#[test]
fn handles_that_do_not_resolve() {
    let ctx = context(Capabilities::ReadWrite);
    let reply = |handle: nfs_fh3| {
        let mut args = Vec::new();
        handle.serialize(&mut args);
        let mut out = Vec::new();
        assert_eq!(nfsproc3_getattr(9, &args, &mut out, &ctx), Ok(()));
        let (stat, at) = status(&out, 9);
        assert_eq!(at, out.len());
        stat
    };
    assert_eq!(reply(nfs_fh3 { data: vec![1, 2, 3] }), nfsstat3::NFS3ERR_BADHANDLE);
    assert_eq!(reply(nfs_fh3 { data: vec![] }), nfsstat3::NFS3ERR_BADHANDLE);
    assert_eq!(reply(handle_of_id(GENERATION - 1, 2)), nfsstat3::NFS3ERR_STALE);
    assert_eq!(reply(handle_of_id(GENERATION + 1, 2)), nfsstat3::NFS3ERR_BADHANDLE);
    assert_eq!(reply(fh(999)), nfsstat3::NFS3ERR_NOENT);
}

#[test]
fn getattr_with_short_arguments_is_an_error() {
    let ctx = context(Capabilities::ReadWrite);
    let mut out = vec![1];
    assert_eq!(nfsproc3_getattr(9, &[0, 0, 0, 16, 1, 2], &mut out, &ctx), Err(RpcError::Decode));
    assert_eq!(out, vec![1]);
}

#[test]
fn lookup_finds_a_name() {
    let ctx = context(Capabilities::ReadWrite);
    let mut args = Vec::new();
    dirop(1, b"a.txt").serialize(&mut args);
    let mut out = Vec::new();
    assert_eq!(nfsproc3_lookup(10, &args, &mut out, &ctx), Ok(()));
    let (stat, at) = status(&out, 10);
    assert_eq!(stat, nfsstat3::NFS3_OK);
    let (handle, at) = nfs_fh3::deserialize(&out, at).unwrap();
    assert_eq!(handle, fh(2));
    let (obj, at) = post_op_attr::deserialize(&out, at).unwrap();
    assert_eq!(obj, post_op_attr::attributes(ctx.vfs.getattr(2).unwrap()));
    let (dir, at) = post_op_attr::deserialize(&out, at).unwrap();
    assert_eq!(dir, post_op_attr::attributes(ctx.vfs.getattr(1).unwrap()));
    assert_eq!(at, out.len());
}

#[test]
fn lookup_in_an_empty_directory_is_noent_with_the_directory_attributes() {
    let ctx = context(Capabilities::ReadWrite);
    let mut args = Vec::new();
    dirop(5, b"anything").serialize(&mut args);
    let mut out = Vec::new();
    assert_eq!(nfsproc3_lookup(11, &args, &mut out, &ctx), Ok(()));
    let (stat, at) = status(&out, 11);
    assert_eq!(stat, nfsstat3::NFS3ERR_NOENT);
    let (dir, at) = post_op_attr::deserialize(&out, at).unwrap();
    assert_eq!(dir, post_op_attr::attributes(ctx.vfs.getattr(5).unwrap()));
    assert_eq!(at, out.len());
}

#[test]
fn lookup_with_a_bad_handle_has_no_attributes() {
    let ctx = context(Capabilities::ReadWrite);
    let mut args = Vec::new();
    diropargs3 { dir: nfs_fh3 { data: vec![0; 4] }, name: name(b"x") }.serialize(&mut args);
    let mut out = Vec::new();
    assert_eq!(nfsproc3_lookup(11, &args, &mut out, &ctx), Ok(()));
    let (stat, at) = status(&out, 11);
    assert_eq!(stat, nfsstat3::NFS3ERR_BADHANDLE);
    assert_eq!(post_op_attr::deserialize(&out, at), Ok((post_op_attr::Void, out.len())));
}

#[test]
fn access_rights_go_by_type_and_capability() {
    let (ro, rw) = (Capabilities::ReadOnly, Capabilities::ReadWrite);
    let all = ACCESS3_READ | ACCESS3_LOOKUP | ACCESS3_MODIFY | ACCESS3_EXTEND | ACCESS3_DELETE | ACCESS3_EXECUTE;
    assert_eq!(all, 0x3f);
    assert_eq!(grant_access(ftype3::NF3REG, ro, all), ACCESS3_LOOKUP | ACCESS3_READ | ACCESS3_EXECUTE);
    assert_eq!(grant_access(ftype3::NF3REG, rw, all), all);
    assert_eq!(grant_access(ftype3::NF3REG, rw, ACCESS3_MODIFY), ACCESS3_LOOKUP | ACCESS3_MODIFY);
    assert_eq!(grant_access(ftype3::NF3REG, ro, ACCESS3_MODIFY), ACCESS3_LOOKUP);
    assert_eq!(grant_access(ftype3::NF3DIR, ro, all), ACCESS3_LOOKUP | ACCESS3_READ);
    assert_eq!(grant_access(ftype3::NF3DIR, rw, all), all);
    assert_eq!(
        grant_access(ftype3::NF3DIR, rw, ACCESS3_READ | ACCESS3_DELETE),
        ACCESS3_LOOKUP | ACCESS3_READ | ACCESS3_DELETE
    );
    assert_eq!(grant_access(ftype3::NF3LNK, ro, all), ACCESS3_LOOKUP | ACCESS3_READ);
    assert_eq!(grant_access(ftype3::NF3LNK, rw, all), ACCESS3_LOOKUP | ACCESS3_READ);
    for t in [ftype3::NF3BLK, ftype3::NF3CHR, ftype3::NF3SOCK, ftype3::NF3FIFO] {
        for caps in [ro, rw] {
            assert_eq!(grant_access(t, caps, all), ACCESS3_LOOKUP | ACCESS3_READ | ACCESS3_EXECUTE);
            assert_eq!(grant_access(t, caps, 0), ACCESS3_LOOKUP);
        }
    }
    // Bits that name no right pass for a file that can be written, and nowhere else.
    assert_eq!(grant_access(ftype3::NF3REG, rw, 0x8000_0000), 0x8000_0002);
    assert_eq!(grant_access(ftype3::NF3DIR, rw, 0x8000_0000), ACCESS3_LOOKUP);
}

#[test]
fn access_replies_with_attributes_and_rights() {
    let ctx = context(Capabilities::ReadOnly);
    let mut args = args_of_handle(2);
    encode_u32(0x3f, &mut args);
    let mut out = Vec::new();
    assert_eq!(nfsproc3_access(12, &args, &mut out, &ctx), Ok(()));
    let (stat, at) = status(&out, 12);
    assert_eq!(stat, nfsstat3::NFS3_OK);
    let (attr, at) = post_op_attr::deserialize(&out, at).unwrap();
    assert_eq!(attr, post_op_attr::attributes(ctx.vfs.getattr(2).unwrap()));
    assert_eq!(decode_u32(&out, at), Ok((ACCESS3_LOOKUP | ACCESS3_READ | ACCESS3_EXECUTE, out.len())));

    let mut args = args_of_handle(777);
    encode_u32(0x3f, &mut args);
    let mut out = Vec::new();
    assert_eq!(nfsproc3_access(12, &args, &mut out, &ctx), Ok(()));
    let (stat, at) = status(&out, 12);
    assert_eq!(stat, nfsstat3::NFS3ERR_NOENT);
    assert_eq!(post_op_attr::deserialize(&out, at), Ok((post_op_attr::Void, out.len())));

    let mut out = Vec::new();
    assert_eq!(nfsproc3_access(12, &args_of_handle(2), &mut out, &ctx), Err(RpcError::Decode));
    assert!(out.is_empty());
}

// ---------------------------------------------------------------------
// READ, READLINK
// ---------------------------------------------------------------------

#[test]
fn read_gives_the_bytes_and_their_number() {
    let ctx = context(Capabilities::ReadOnly);
    let read = |offset: u64, count: u32| {
        let mut args = Vec::new();
        READ3args { file: fh(2), offset, count }.serialize(&mut args);
        let mut out = Vec::new();
        assert_eq!(nfsproc3_read(13, &args, &mut out, &ctx), Ok(()));
        let (stat, at) = status(&out, 13);
        assert_eq!(stat, nfsstat3::NFS3_OK);
        let (res, at) = READ3resok::deserialize(&out, at).unwrap();
        assert_eq!(at, out.len());
        assert_eq!(res.file_attributes, post_op_attr::attributes(ctx.vfs.getattr(2).unwrap()));
        assert_eq!(res.count as usize, res.data.len());
        (res.data, res.eof)
    };
    assert_eq!(read(0, 5), (b"hello".to_vec(), false));
    assert_eq!(read(6, 100), (b"world".to_vec(), true));
    assert_eq!(read(0, 11), (b"hello world".to_vec(), true));
    assert_eq!(read(50, 10), (vec![], true));
    assert_eq!(read(0, 0), (vec![], false));
}

#[test]
fn read_of_a_directory_fails_with_its_attributes() {
    let ctx = context(Capabilities::ReadOnly);
    let mut args = Vec::new();
    READ3args { file: fh(3), offset: 0, count: 10 }.serialize(&mut args);
    let mut out = Vec::new();
    assert_eq!(nfsproc3_read(13, &args, &mut out, &ctx), Ok(()));
    let (stat, at) = status(&out, 13);
    assert_eq!(stat, nfsstat3::NFS3ERR_ISDIR);
    assert_eq!(
        post_op_attr::deserialize(&out, at),
        Ok((post_op_attr::attributes(ctx.vfs.getattr(3).unwrap()), out.len()))
    );
}

#[test]
fn symlink_then_readlink() {
    let ctx = context(Capabilities::ReadWrite);
    let before = ctx.vfs.getattr(1).unwrap();
    let mut args = Vec::new();
    SYMLINK3args {
        dirops: dirop(1, b"ln"),
        symlink: symlinkdata3 { symlink_attributes: sattr3::default(), symlink_data: name(b"dir/b.txt") },
    }
    .serialize(&mut args);
    let mut out = Vec::new();
    assert_eq!(nfsproc3_symlink(14, &args, &mut out, &ctx), Ok(()));
    let (stat, at) = status(&out, 14);
    assert_eq!(stat, nfsstat3::NFS3_OK);
    let (handle, at) = post_op_fh3::deserialize(&out, at).unwrap();
    let id = ctx.vfs.lookup(1, &name(b"ln")).unwrap();
    assert_eq!(handle, post_op_fh3::handle(fh(id)));
    let (attr, at) = post_op_attr::deserialize(&out, at).unwrap();
    assert!(matches!(attr, post_op_attr::attributes(a) if a.ftype == ftype3::NF3LNK && a.fileid == id));
    let (dir, at) = wcc_data::deserialize(&out, at).unwrap();
    assert_eq!(dir, wcc_data { before: pre(before), after: post_op_attr::attributes(ctx.vfs.getattr(1).unwrap()) });
    assert_eq!(at, out.len());

    let mut out = Vec::new();
    assert_eq!(nfsproc3_readlink(15, &args_of_handle(id), &mut out, &ctx), Ok(()));
    let (stat, at) = status(&out, 15);
    assert_eq!(stat, nfsstat3::NFS3_OK);
    let (attr, at) = post_op_attr::deserialize(&out, at).unwrap();
    assert_eq!(attr, post_op_attr::attributes(ctx.vfs.getattr(id).unwrap()));
    assert_eq!(nfsstring::deserialize(&out, at), Ok((name(b"dir/b.txt"), out.len())));
}

#[test]
fn readlink_failures_carry_what_attributes_there_are() {
    let ctx = context(Capabilities::ReadWrite);
    let mut out = Vec::new();
    assert_eq!(nfsproc3_readlink(15, &args_of_handle(2), &mut out, &ctx), Ok(()));
    let (stat, at) = status(&out, 15);
    assert_eq!(stat, nfsstat3::NFS3ERR_INVAL);
    assert_eq!(
        post_op_attr::deserialize(&out, at),
        Ok((post_op_attr::attributes(ctx.vfs.getattr(2).unwrap()), out.len()))
    );
    for handle in [fh(888), nfs_fh3 { data: vec![1] }] {
        let mut args = Vec::new();
        handle.serialize(&mut args);
        let mut out = Vec::new();
        assert_eq!(nfsproc3_readlink(15, &args, &mut out, &ctx), Ok(()));
        let (stat, at) = status(&out, 15);
        assert_ne!(stat, nfsstat3::NFS3_OK);
        assert_eq!(post_op_attr::deserialize(&out, at), Ok((post_op_attr::Void, out.len())));
    }
}

// ---------------------------------------------------------------------
// WRITE, COMMIT, SETATTR
// ---------------------------------------------------------------------

fn write_args(id: fileid3, offset: u64, count: u32, data: &[u8]) -> Vec<u8> {
    let mut args = Vec::new();
    WRITE3args { file: fh(id), offset, count, stable: 2, data: data.to_vec() }.serialize(&mut args);
    args
}

#[test]
fn write_reports_both_sides_and_the_verifier() {
    let ctx = context(Capabilities::ReadWrite);
    let before = ctx.vfs.getattr(2).unwrap();
    let mut out = Vec::new();
    assert_eq!(nfsproc3_write(16, &write_args(2, 6, 5, b"WORLD"), &mut out, &ctx), Ok(()));
    let (stat, at) = status(&out, 16);
    assert_eq!(stat, nfsstat3::NFS3_OK);
    let (res, at) = WRITE3resok::deserialize(&out, at).unwrap();
    assert_eq!(at, out.len());
    let after = ctx.vfs.getattr(2).unwrap();
    assert_ne!(before.mtime, after.mtime);
    assert_eq!(res.file_wcc, wcc_data { before: pre(before), after: post_op_attr::attributes(after) });
    assert_eq!(res.count, 5);
    assert_eq!(res.committed, stable_how::FILE_SYNC);
    assert_eq!(res.verf, GENERATION.to_le_bytes());
    assert_eq!(res.verf, ctx.vfs.serverid());
    assert_eq!(ctx.vfs.read(2, 0, 100).unwrap().0, b"hello WORLD".to_vec());
}

#[test]
fn write_with_a_count_that_is_not_the_length_is_garbage() {
    let ctx = context(Capabilities::ReadWrite);
    let mut out = Vec::new();
    assert_eq!(nfsproc3_write(17, &write_args(2, 0, 5, b"1234"), &mut out, &ctx), Ok(()));
    assert_eq!(out, message(garbage_args_reply_message(17)));
    assert_eq!(ctx.vfs.count("write"), 0);
    assert_eq!(ctx.vfs.read(2, 0, 100).unwrap().0, b"hello world".to_vec());
    let mut out = Vec::new();
    assert_eq!(nfsproc3_write(17, &write_args(2, 0, 3, b"1234"), &mut out, &ctx), Ok(()));
    assert_eq!(out, message(garbage_args_reply_message(17)));
    assert_eq!(ctx.vfs.count("write"), 0);
}

#[test]
fn write_that_fails_still_reports_both_sides() {
    let ctx = context(Capabilities::ReadWrite);
    let attr = ctx.vfs.getattr(3).unwrap();
    let mut out = Vec::new();
    assert_eq!(nfsproc3_write(18, &write_args(3, 0, 1, b"x"), &mut out, &ctx), Ok(()));
    let (stat, at) = status(&out, 18);
    assert_eq!(stat, nfsstat3::NFS3ERR_ISDIR);
    assert_eq!(
        wcc_data::deserialize(&out, at),
        Ok((wcc_data { before: pre(attr), after: post_op_attr::attributes(attr) }, out.len()))
    );
}

#[test]
fn read_only_file_system_refuses_every_change() {
    let ctx = context(Capabilities::ReadOnly);
    let mut rofs = Vec::new();
    make_success_reply(19).serialize(&mut rofs);
    nfsstat3::NFS3ERR_ROFS.serialize(&mut rofs);
    wcc_data::default().serialize(&mut rofs);
    type Handler = fn(u32, &[u8], &mut Vec<u8>, &Context<MemFs>) -> Result<(), RpcError>;
    let handlers: [Handler; 7] = [
        nfsproc3_write,
        nfsproc3_setattr,
        nfsproc3_create,
        nfsproc3_mkdir,
        nfsproc3_symlink,
        nfsproc3_mknod,
        nfsproc3_remove,
    ];
    for h in handlers {
        let mut out = Vec::new();
        // The arguments are not even looked at.
        assert_eq!(h(19, b"\xff", &mut out, &ctx), Ok(()));
        assert_eq!(out, rofs);
    }
    let mut out = Vec::new();
    assert_eq!(nfsproc3_rename(19, b"", &mut out, &ctx), Ok(()));
    let mut twice = rofs.clone();
    wcc_data::default().serialize(&mut twice);
    assert_eq!(out, twice);
    let mut out = Vec::new();
    assert_eq!(nfsproc3_link(19, b"", &mut out, &ctx), Ok(()));
    let mut link = Vec::new();
    make_success_reply(19).serialize(&mut link);
    nfsstat3::NFS3ERR_ROFS.serialize(&mut link);
    post_op_attr::Void.serialize(&mut link);
    wcc_data::default().serialize(&mut link);
    assert_eq!(out, link);
    assert!(ctx.vfs.calls.borrow().is_empty());
}

#[test]
fn changes_with_short_arguments_are_errors() {
    let ctx = context(Capabilities::ReadWrite);
    type Handler = fn(u32, &[u8], &mut Vec<u8>, &Context<MemFs>) -> Result<(), RpcError>;
    let handlers: [Handler; 9] = [
        nfsproc3_write,
        nfsproc3_setattr,
        nfsproc3_create,
        nfsproc3_mkdir,
        nfsproc3_symlink,
        nfsproc3_mknod,
        nfsproc3_remove,
        nfsproc3_rename,
        nfsproc3_link,
    ];
    for h in handlers {
        let mut out = vec![5];
        assert_eq!(h(19, &[0, 0, 0, 16, 1], &mut out, &ctx), Err(RpcError::Decode));
        assert_eq!(out, vec![5]);
    }
    assert!(ctx.vfs.calls.borrow().is_empty());
}

#[test]
fn commit_reports_the_verifier() {
    let ctx = context(Capabilities::ReadWrite);
    let attr = ctx.vfs.getattr(2).unwrap();
    let mut args = Vec::new();
    COMMIT3args { file: fh(2), offset: 0, count: 0 }.serialize(&mut args);
    let mut out = Vec::new();
    assert_eq!(nfsproc3_commit(20, &args, &mut out, &ctx), Ok(()));
    let (stat, at) = status(&out, 20);
    assert_eq!(stat, nfsstat3::NFS3_OK);
    let (res, at) = COMMIT3resok::deserialize(&out, at).unwrap();
    assert_eq!(at, out.len());
    assert_eq!(res.file_wcc, wcc_data { before: pre(attr), after: post_op_attr::attributes(attr) });
    assert_eq!(res.verf, GENERATION.to_le_bytes());

    let dir = ctx.vfs.getattr(3).unwrap();
    let mut args = Vec::new();
    COMMIT3args { file: fh(3), offset: 0, count: 0 }.serialize(&mut args);
    let mut out = Vec::new();
    assert_eq!(nfsproc3_commit(20, &args, &mut out, &ctx), Ok(()));
    let (stat, at) = status(&out, 20);
    assert_eq!(stat, nfsstat3::NFS3ERR_ISDIR);
    assert_eq!(
        wcc_data::deserialize(&out, at),
        Ok((wcc_data { before: pre(dir), after: post_op_attr::attributes(dir) }, out.len()))
    );
}

fn setattr_args(id: fileid3, size: u64, guard: sattrguard3) -> Vec<u8> {
    let mut args = Vec::new();
    SETATTR3args {
        object: fh(id),
        new_attribute: sattr3 { size: set_size3::size(size), ..sattr3::default() },
        guard,
    }
    .serialize(&mut args);
    args
}

#[test]
fn setattr_reports_both_sides() {
    let ctx = context(Capabilities::ReadWrite);
    let before = ctx.vfs.getattr(2).unwrap();
    let mut out = Vec::new();
    assert_eq!(nfsproc3_setattr(21, &setattr_args(2, 4, sattrguard3::Void), &mut out, &ctx), Ok(()));
    let (stat, at) = status(&out, 21);
    assert_eq!(stat, nfsstat3::NFS3_OK);
    let after = ctx.vfs.getattr(2).unwrap();
    assert_eq!(after.size, 4);
    assert_eq!(
        wcc_data::deserialize(&out, at),
        Ok((wcc_data { before: pre(before), after: post_op_attr::attributes(after) }, out.len()))
    );
}

#[test]
fn setattr_guard_must_name_the_change_time() {
    let ctx = context(Capabilities::ReadWrite);
    let attr = ctx.vfs.getattr(2).unwrap();
    let wrong = [
        nfstime3 { seconds: attr.ctime.seconds + 1, nseconds: attr.ctime.nseconds },
        nfstime3 { seconds: attr.ctime.seconds, nseconds: attr.ctime.nseconds + 1 },
        nfstime3 { seconds: 0, nseconds: 0 },
    ];
    for c in wrong {
        assert_eq!(check_guard(&sattrguard3::obj_ctime(c), &Ok(attr)), Some(nfsstat3::NFS3ERR_NOT_SYNC));
        let mut out = Vec::new();
        assert_eq!(nfsproc3_setattr(22, &setattr_args(2, 4, sattrguard3::obj_ctime(c)), &mut out, &ctx), Ok(()));
        let (stat, at) = status(&out, 22);
        assert_eq!(stat, nfsstat3::NFS3ERR_NOT_SYNC);
        assert_eq!(wcc_data::deserialize(&out, at), Ok((wcc_data::default(), out.len())));
    }
    assert_eq!(ctx.vfs.count("setattr"), 0);
    assert_eq!(ctx.vfs.getattr(2).unwrap(), attr);

    assert_eq!(check_guard(&sattrguard3::obj_ctime(attr.ctime), &Ok(attr)), None);
    assert_eq!(check_guard(&sattrguard3::Void, &Ok(attr)), None);
    assert_eq!(check_guard(&sattrguard3::Void, &Err(nfsstat3::NFS3ERR_IO)), None);
    assert_eq!(
        check_guard(&sattrguard3::obj_ctime(attr.ctime), &Err(nfsstat3::NFS3ERR_IO)),
        Some(nfsstat3::NFS3ERR_IO)
    );
    let mut out = Vec::new();
    assert_eq!(
        nfsproc3_setattr(22, &setattr_args(2, 4, sattrguard3::obj_ctime(attr.ctime)), &mut out, &ctx),
        Ok(())
    );
    assert_eq!(status(&out, 22).0, nfsstat3::NFS3_OK);
    assert_eq!(ctx.vfs.count("setattr"), 1);
}

#[test]
fn setattr_that_fails_still_reports_both_sides() {
    let ctx = context(Capabilities::ReadWrite);
    let attr = ctx.vfs.getattr(2).unwrap();
    let mut out = Vec::new();
    assert_eq!(nfsproc3_setattr(23, &setattr_args(2, 5000, sattrguard3::Void), &mut out, &ctx), Ok(()));
    let (stat, at) = status(&out, 23);
    assert_eq!(stat, nfsstat3::NFS3ERR_FBIG);
    assert_eq!(
        wcc_data::deserialize(&out, at),
        Ok((wcc_data { before: pre(attr), after: post_op_attr::attributes(attr) }, out.len()))
    );
    for handle in [fh(999), nfs_fh3 { data: vec![] }] {
        let mut args = Vec::new();
        SETATTR3args { object: handle, new_attribute: sattr3::default(), guard: sattrguard3::Void }
            .serialize(&mut args);
        let mut out = Vec::new();
        assert_eq!(nfsproc3_setattr(23, &args, &mut out, &ctx), Ok(()));
        let (stat, at) = status(&out, 23);
        assert_ne!(stat, nfsstat3::NFS3_OK);
        assert_eq!(wcc_data::deserialize(&out, at), Ok((wcc_data::default(), out.len())));
    }
}

#[test]
fn wcc_is_built_from_the_two_answers() {
    let a = attr_of(ftype3::NF3REG, 2, 10, 5);
    let b = attr_of(ftype3::NF3REG, 2, 20, 6);
    assert_eq!(pre_op(&Ok(a)), pre(a));
    assert_eq!(pre_op(&Err(nfsstat3::NFS3ERR_IO)), pre_op_attr::Void);
    assert_eq!(post_op(&Ok(b)), post_op_attr::attributes(b));
    assert_eq!(post_op(&Err(nfsstat3::NFS3ERR_IO)), post_op_attr::Void);
    assert_eq!(wcc(&Ok(a), &Ok(b)), wcc_data { before: pre(a), after: post_op_attr::attributes(b) });
    assert_eq!(
        wcc(&Err(nfsstat3::NFS3ERR_IO), &Ok(b)),
        wcc_data { before: pre_op_attr::Void, after: post_op_attr::attributes(b) }
    );
    assert_eq!(wcc(&Ok(a), &Err(nfsstat3::NFS3ERR_IO)), wcc_data { before: pre(a), after: post_op_attr::Void });
    assert_eq!(wcc(&Err(nfsstat3::NFS3ERR_IO), &Err(nfsstat3::NFS3ERR_IO)), wcc_data::default());
}

// ---------------------------------------------------------------------
// CREATE, MKDIR, MKNOD, REMOVE, RENAME, LINK
// ---------------------------------------------------------------------

fn created(out: &[u8], xid: u32, ctx: &Context<MemFs>, dir: fileid3, n: &[u8], before: fattr3) -> (fileid3, post_op_attr) {
    let (stat, at) = status(out, xid);
    assert_eq!(stat, nfsstat3::NFS3_OK);
    let id = ctx.vfs.lookup(dir, &name(n)).unwrap();
    let (handle, at) = post_op_fh3::deserialize(out, at).unwrap();
    assert_eq!(handle, post_op_fh3::handle(fh(id)));
    let (attr, at) = post_op_attr::deserialize(out, at).unwrap();
    let (wcc, at) = wcc_data::deserialize(out, at).unwrap();
    assert_eq!(wcc, wcc_data { before: pre(before), after: post_op_attr::attributes(ctx.vfs.getattr(dir).unwrap()) });
    assert_ne!(before.mtime, ctx.vfs.getattr(dir).unwrap().mtime);
    assert_eq!(at, out.len());
    (id, attr)
}

fn create_args(dir: fileid3, n: &[u8], how: createhow3) -> Vec<u8> {
    let mut args = Vec::new();
    CREATE3args { where_dir: dirop(dir, n), how }.serialize(&mut args);
    args
}

#[test]
fn create_makes_a_file() {
    let ctx = context(Capabilities::ReadWrite);
    let before = ctx.vfs.getattr(3).unwrap();
    let mut out = Vec::new();
    assert_eq!(
        nfsproc3_create(24, &create_args(3, b"new", createhow3::UNCHECKED(sattr3::default())), &mut out, &ctx),
        Ok(())
    );
    let (id, attr) = created(&out, 24, &ctx, 3, b"new", before);
    assert_eq!(attr, post_op_attr::attributes(ctx.vfs.getattr(id).unwrap()));
    assert_eq!(ctx.vfs.count("create"), 1);
}

#[test]
fn guarded_create_of_a_name_that_exists_is_refused() {
    let ctx = context(Capabilities::ReadWrite);
    let attr = ctx.vfs.getattr(1).unwrap();
    let mut out = Vec::new();
    assert_eq!(
        nfsproc3_create(25, &create_args(1, b"a.txt", createhow3::GUARDED(sattr3::default())), &mut out, &ctx),
        Ok(())
    );
    let (stat, at) = status(&out, 25);
    assert_eq!(stat, nfsstat3::NFS3ERR_EXIST);
    assert_eq!(
        wcc_data::deserialize(&out, at),
        Ok((wcc_data { before: pre(attr), after: post_op_attr::attributes(attr) }, out.len()))
    );
    assert_eq!(ctx.vfs.count("create"), 0);

    // Unchecked, the same name is no obstacle.
    let mut out = Vec::new();
    assert_eq!(
        nfsproc3_create(25, &create_args(1, b"a.txt", createhow3::UNCHECKED(sattr3::default())), &mut out, &ctx),
        Ok(())
    );
    assert_eq!(status(&out, 25).0, nfsstat3::NFS3_OK);
    assert_eq!(ctx.vfs.count("create"), 1);

    let before = ctx.vfs.getattr(1).unwrap();
    let mut out = Vec::new();
    assert_eq!(
        nfsproc3_create(25, &create_args(1, b"fresh", createhow3::GUARDED(sattr3::default())), &mut out, &ctx),
        Ok(())
    );
    created(&out, 25, &ctx, 1, b"fresh", before);
}

#[test]
fn exclusive_create_reports_no_attributes() {
    let ctx = context(Capabilities::ReadWrite);
    let before = ctx.vfs.getattr(1).unwrap();
    let mut out = Vec::new();
    assert_eq!(nfsproc3_create(26, &create_args(1, b"only", createhow3::EXCLUSIVE), &mut out, &ctx), Ok(()));
    let (_, attr) = created(&out, 26, &ctx, 1, b"only", before);
    assert_eq!(attr, post_op_attr::Void);
    assert_eq!(ctx.vfs.count("create_exclusive"), 1);
    assert_eq!(ctx.vfs.count("create"), 0);

    let attr = ctx.vfs.getattr(1).unwrap();
    let mut out = Vec::new();
    assert_eq!(nfsproc3_create(26, &create_args(1, b"only", createhow3::EXCLUSIVE), &mut out, &ctx), Ok(()));
    let (stat, at) = status(&out, 26);
    assert_eq!(stat, nfsstat3::NFS3ERR_EXIST);
    assert_eq!(
        wcc_data::deserialize(&out, at),
        Ok((wcc_data { before: pre(attr), after: post_op_attr::attributes(attr) }, out.len()))
    );
}

#[test]
fn mkdir_makes_a_directory() {
    let ctx = context(Capabilities::ReadWrite);
    let before = ctx.vfs.getattr(1).unwrap();
    let mut args = Vec::new();
    MKDIR3args { dirops: dirop(1, b"sub"), attributes: sattr3::default() }.serialize(&mut args);
    let mut out = Vec::new();
    assert_eq!(nfsproc3_mkdir(27, &args, &mut out, &ctx), Ok(()));
    let (id, attr) = created(&out, 27, &ctx, 1, b"sub", before);
    assert!(matches!(attr, post_op_attr::attributes(a) if a.ftype == ftype3::NF3DIR && a.fileid == id));

    let attr = ctx.vfs.getattr(1).unwrap();
    let mut out = Vec::new();
    assert_eq!(nfsproc3_mkdir(27, &args, &mut out, &ctx), Ok(()));
    let (stat, at) = status(&out, 27);
    assert_eq!(stat, nfsstat3::NFS3ERR_EXIST);
    assert_eq!(
        wcc_data::deserialize(&out, at),
        Ok((wcc_data { before: pre(attr), after: post_op_attr::attributes(attr) }, out.len()))
    );

    // A directory without attributes makes only the attributes void: the
    // file system is still asked to make the directory.
    let mut args = Vec::new();
    MKDIR3args { dirops: dirop(999, b"sub"), attributes: sattr3::default() }.serialize(&mut args);
    let mut out = Vec::new();
    assert_eq!(nfsproc3_mkdir(27, &args, &mut out, &ctx), Ok(()));
    let (stat, at) = status(&out, 27);
    assert_eq!(stat, nfsstat3::NFS3ERR_NOENT);
    assert_eq!(wcc_data::deserialize(&out, at), Ok((wcc_data::default(), out.len())));
    assert_eq!(ctx.vfs.count("mkdir"), 3);

    // A handle that does not resolve ends the call before that.
    let mut args = Vec::new();
    MKDIR3args {
        dirops: diropargs3 { dir: nfs_fh3 { data: vec![1] }, name: name(b"sub") },
        attributes: sattr3::default(),
    }
    .serialize(&mut args);
    let mut out = Vec::new();
    assert_eq!(nfsproc3_mkdir(27, &args, &mut out, &ctx), Ok(()));
    let (stat, at) = status(&out, 27);
    assert_eq!(stat, nfsstat3::NFS3ERR_BADHANDLE);
    assert_eq!(wcc_data::deserialize(&out, at), Ok((wcc_data::default(), out.len())));
    assert_eq!(ctx.vfs.count("mkdir"), 3);
}

#[test]
fn mknod_makes_a_special_file() {
    let ctx = context(Capabilities::ReadWrite);
    let before = ctx.vfs.getattr(1).unwrap();
    let mut args = Vec::new();
    MKNOD3args {
        where_dir: dirop(1, b"pipe"),
        what: mknoddata3 {
            mknod_type: ftype3::NF3FIFO,
            device: devicedata3 {
                dev_type: devicetype3::NF3FIFO,
                device: specdata3 { specdata1: 8, specdata2: 1 },
            },
        },
    }
    .serialize(&mut args);
    let mut out = Vec::new();
    assert_eq!(nfsproc3_mknod(28, &args, &mut out, &ctx), Ok(()));
    let (_, attr) = created(&out, 28, &ctx, 1, b"pipe", before);
    assert!(matches!(
        attr,
        post_op_attr::attributes(a) if a.ftype == ftype3::NF3FIFO && a.rdev == specdata3 { specdata1: 8, specdata2: 1 }
    ));
}

#[test]
fn remove_takes_an_entry_out() {
    let ctx = context(Capabilities::ReadWrite);
    let before = ctx.vfs.getattr(3).unwrap();
    let mut args = Vec::new();
    dirop(3, b"b.txt").serialize(&mut args);
    let mut out = Vec::new();
    assert_eq!(nfsproc3_remove(29, &args, &mut out, &ctx), Ok(()));
    let (stat, at) = status(&out, 29);
    assert_eq!(stat, nfsstat3::NFS3_OK);
    let after = ctx.vfs.getattr(3).unwrap();
    assert_ne!(before.ctime, after.ctime);
    assert_eq!(
        wcc_data::deserialize(&out, at),
        Ok((wcc_data { before: pre(before), after: post_op_attr::attributes(after) }, out.len()))
    );
    assert_eq!(ctx.vfs.lookup(3, &name(b"b.txt")), Err(nfsstat3::NFS3ERR_NOENT));

    let mut out = Vec::new();
    assert_eq!(nfsproc3_remove(29, &args, &mut out, &ctx), Ok(()));
    let (stat, at) = status(&out, 29);
    assert_eq!(stat, nfsstat3::NFS3ERR_NOENT);
    assert_eq!(
        wcc_data::deserialize(&out, at),
        Ok((wcc_data { before: pre(after), after: post_op_attr::attributes(after) }, out.len()))
    );
}

#[test]
fn rename_moves_an_entry() {
    let ctx = context(Capabilities::ReadWrite);
    let from = ctx.vfs.getattr(1).unwrap();
    let to = ctx.vfs.getattr(3).unwrap();
    let mut args = Vec::new();
    RENAME3args { from: dirop(1, b"a.txt"), to: dirop(3, b"moved") }.serialize(&mut args);
    let mut out = Vec::new();
    assert_eq!(nfsproc3_rename(30, &args, &mut out, &ctx), Ok(()));
    let (stat, at) = status(&out, 30);
    assert_eq!(stat, nfsstat3::NFS3_OK);
    let (w1, at) = wcc_data::deserialize(&out, at).unwrap();
    let (w2, at) = wcc_data::deserialize(&out, at).unwrap();
    assert_eq!(at, out.len());
    assert_eq!(w1, wcc_data { before: pre(from), after: post_op_attr::attributes(ctx.vfs.getattr(1).unwrap()) });
    assert_eq!(w2, wcc_data { before: pre(to), after: post_op_attr::attributes(ctx.vfs.getattr(3).unwrap()) });
    assert_eq!(ctx.vfs.lookup(3, &name(b"moved")), Ok(2));

    let mut out = Vec::new();
    assert_eq!(nfsproc3_rename(30, &args, &mut out, &ctx), Ok(()));
    assert_eq!(status(&out, 30).0, nfsstat3::NFS3ERR_NOENT);

    // A directory without attributes makes only its attributes void.
    let from = ctx.vfs.getattr(1).unwrap();
    let mut args = Vec::new();
    RENAME3args { from: dirop(1, b"dir"), to: dirop(4000, b"x") }.serialize(&mut args);
    let mut out = Vec::new();
    assert_eq!(nfsproc3_rename(30, &args, &mut out, &ctx), Ok(()));
    let (stat, at) = status(&out, 30);
    assert_eq!(stat, nfsstat3::NFS3ERR_NOENT);
    let (w1, at) = wcc_data::deserialize(&out, at).unwrap();
    let (w2, at) = wcc_data::deserialize(&out, at).unwrap();
    assert_eq!(w1, wcc_data { before: pre(from), after: post_op_attr::attributes(from) });
    assert_eq!((w2, at), (wcc_data::default(), out.len()));
    assert_eq!(ctx.vfs.count("rename"), 3);
}

#[test]
fn link_reports_the_file_and_the_directory() {
    let ctx = context(Capabilities::ReadWrite);
    let dir = ctx.vfs.getattr(3).unwrap();
    let mut args = Vec::new();
    LINK3args { file: fh(2), link: dirop(3, b"hard") }.serialize(&mut args);
    let mut out = Vec::new();
    assert_eq!(nfsproc3_link(31, &args, &mut out, &ctx), Ok(()));
    let (stat, at) = status(&out, 31);
    assert_eq!(stat, nfsstat3::NFS3_OK);
    let (file, at) = post_op_attr::deserialize(&out, at).unwrap();
    assert!(matches!(file, post_op_attr::attributes(a) if a.nlink == 2 && a.fileid == 2));
    assert_eq!(
        wcc_data::deserialize(&out, at),
        Ok((wcc_data { before: pre(dir), after: post_op_attr::attributes(ctx.vfs.getattr(3).unwrap()) }, out.len()))
    );

    let dir = ctx.vfs.getattr(3).unwrap();
    let mut args = Vec::new();
    LINK3args { file: fh(5), link: dirop(3, b"hard2") }.serialize(&mut args);
    let mut out = Vec::new();
    assert_eq!(nfsproc3_link(31, &args, &mut out, &ctx), Ok(()));
    let (stat, at) = status(&out, 31);
    assert_eq!(stat, nfsstat3::NFS3ERR_ISDIR);
    let (file, at) = post_op_attr::deserialize(&out, at).unwrap();
    assert_eq!(file, post_op_attr::attributes(ctx.vfs.getattr(5).unwrap()));
    assert_eq!(
        wcc_data::deserialize(&out, at),
        Ok((wcc_data { before: pre(dir), after: post_op_attr::attributes(dir) }, out.len()))
    );
}

// ---------------------------------------------------------------------
// FSSTAT, FSINFO, PATHCONF
// ---------------------------------------------------------------------

#[test]
fn fsstat_reports_a_terabyte() {
    let ctx = context(Capabilities::ReadOnly);
    let mut out = Vec::new();
    assert_eq!(nfsproc3_fsstat(32, &args_of_handle(1), &mut out, &ctx), Ok(()));
    let (stat, at) = status(&out, 32);
    assert_eq!(stat, nfsstat3::NFS3_OK);
    let (res, at) = FSSTAT3resok::deserialize(&out, at).unwrap();
    assert_eq!(at, out.len());
    assert_eq!(
        res,
        FSSTAT3resok {
            obj_attributes: post_op_attr::attributes(ctx.vfs.getattr(1).unwrap()),
            tbytes: 1 << 40,
            fbytes: 1 << 40,
            abytes: 1 << 40,
            tfiles: 1 << 30,
            ffiles: 1 << 30,
            afiles: 1 << 30,
            invarsec: u32::MAX,
        }
    );
    let mut out = Vec::new();
    assert_eq!(nfsproc3_fsstat(32, &args_of_handle(999), &mut out, &ctx), Ok(()));
    let (stat, at) = status(&out, 32);
    assert_eq!(stat, nfsstat3::NFS3_OK);
    let (res, _) = FSSTAT3resok::deserialize(&out, at).unwrap();
    assert_eq!(res.obj_attributes, post_op_attr::Void);
}

#[test]
fn fsinfo_reports_the_defaults() {
    let ctx = context(Capabilities::ReadOnly);
    let mut out = Vec::new();
    assert_eq!(nfsproc3_fsinfo(33, &args_of_handle(1), &mut out, &ctx), Ok(()));
    let (stat, at) = status(&out, 33);
    assert_eq!(stat, nfsstat3::NFS3_OK);
    let (res, at) = fsinfo3::deserialize(&out, at).unwrap();
    assert_eq!(at, out.len());
    assert_eq!(res.obj_attributes, post_op_attr::attributes(ctx.vfs.getattr(1).unwrap()));
    assert_eq!((res.rtmax, res.rtpref, res.rtmult), (1048576, 126976, 1048576));
    assert_eq!((res.wtmax, res.wtpref, res.wtmult, res.dtpref), (1048576, 1048576, 1048576, 1048576));
    assert_eq!(res.maxfilesize, 137438953472);
    assert_eq!(res.time_delta, nfstime3 { seconds: 0, nseconds: 1000000 });
    assert_eq!(res.properties, 0x1a);
    assert_eq!(ctx.vfs.fsinfo(1), Ok(res));

    let mut args = Vec::new();
    nfs_fh3 { data: vec![9; 15] }.serialize(&mut args);
    let mut out = Vec::new();
    assert_eq!(nfsproc3_fsinfo(33, &args, &mut out, &ctx), Ok(()));
    let (stat, at) = status(&out, 33);
    assert_eq!(stat, nfsstat3::NFS3ERR_BADHANDLE);
    assert_eq!(post_op_attr::deserialize(&out, at), Ok((post_op_attr::Void, out.len())));
}

#[test]
fn pathconf_reports_the_defaults() {
    let ctx = context(Capabilities::ReadOnly);
    let mut out = Vec::new();
    assert_eq!(nfsproc3_pathconf(34, &args_of_handle(2), &mut out, &ctx), Ok(()));
    let (stat, at) = status(&out, 34);
    assert_eq!(stat, nfsstat3::NFS3_OK);
    assert_eq!(
        PATHCONF3resok::deserialize(&out, at),
        Ok((
            PATHCONF3resok {
                obj_attributes: post_op_attr::attributes(ctx.vfs.getattr(2).unwrap()),
                linkmax: 0,
                name_max: 32768,
                no_trunc: true,
                chown_restricted: true,
                case_insensitive: false,
                case_preserving: true,
            },
            out.len()
        ))
    );
}

// ---------------------------------------------------------------------
// READDIR, READDIRPLUS
// ---------------------------------------------------------------------

/// A file system whose directory 3 holds `n` more files, with names of
/// ten bytes.
fn crowded(n: usize) -> Context<MemFs> {
    let ctx = context(Capabilities::ReadWrite);
    ctx.vfs.remove(3, &name(b"b.txt")).unwrap();
    for i in 0..n {
        ctx.vfs.create(3, &name(format!("file{:06}", i).as_bytes()), sattr3::default()).unwrap();
    }
    ctx
}

struct Page {
    dir: post_op_attr,
    verf: [u8; 8],
    names: Vec<Vec<u8>>,
    ids: Vec<u64>,
    eof: bool,
    len: usize,
}

fn page_of(out: &[u8], xid: u32, plus: bool, ctx: &Context<MemFs>) -> Page {
    let (stat, at) = status(out, xid);
    assert_eq!(stat, nfsstat3::NFS3_OK);
    let (dir, at) = post_op_attr::deserialize(out, at).unwrap();
    let (verf, mut at) = decode_fixed8(out, at).unwrap();
    let mut names = Vec::new();
    let mut ids = Vec::new();
    loop {
        let (more, next) = decode_bool(out, at).unwrap();
        at = next;
        if !more {
            break;
        }
        if plus {
            let (e, next) = entryplus3::deserialize(out, at).unwrap();
            at = next;
            assert_eq!(e.cookie, e.fileid);
            assert_eq!(e.name_attributes, post_op_attr::attributes(ctx.vfs.getattr(e.fileid).unwrap()));
            assert_eq!(e.name_handle, post_op_fh3::handle(fh(e.fileid)));
            names.push(e.name.0);
            ids.push(e.fileid);
        } else {
            let (e, next) = entry3::deserialize(out, at).unwrap();
            at = next;
            assert_eq!(e.cookie, e.fileid);
            names.push(e.name.0);
            ids.push(e.fileid);
        }
    }
    let (eof, at) = decode_bool(out, at).unwrap();
    assert_eq!(at, out.len());
    Page { dir, verf, names, ids, eof, len: out.len() }
}

fn readdirplus(ctx: &Context<MemFs>, dir: fileid3, cookie: u64, dircount: u32, maxcount: u32) -> Page {
    let mut args = Vec::new();
    READDIRPLUS3args { dir: fh(dir), cookie, cookieverf: [0; 8], dircount, maxcount }.serialize(&mut args);
    let mut out = Vec::new();
    assert_eq!(nfsproc3_readdirplus(35, &args, &mut out, ctx), Ok(()));
    page_of(&out, 35, true, ctx)
}

fn readdir(ctx: &Context<MemFs>, dir: fileid3, cookie: u64, count: u32) -> Page {
    let mut args = Vec::new();
    READDIR3args { dir: fh(dir), cookie, cookieverf: [0; 8], dircount: count }.serialize(&mut args);
    let mut out = Vec::new();
    assert_eq!(nfsproc3_readdir(36, &args, &mut out, ctx), Ok(()));
    page_of(&out, 36, false, ctx)
}

#[test]
fn readdirplus_stays_within_the_count_for_names() {
    let ctx = crowded(50);
    let page = readdirplus(&ctx, 3, 0, 200, 8192);
    // Each entry counts 8 + 4 + 10 + 8 = 30 bytes, and the sum stays under 200.
    assert_eq!(page.names.len(), 6);
    assert!(page.names.iter().all(|n| n.len() == 10));
    assert!(!page.eof);
    assert_eq!(page.names[0], b"file000000".to_vec());
    assert_eq!(page.names[5], b"file000005".to_vec());
    assert_eq!(page.dir, post_op_attr::attributes(ctx.vfs.getattr(3).unwrap()));
    assert!(page.len <= 8192);
}

#[test]
fn readdirplus_stays_within_the_count_for_the_reply() {
    let ctx = crowded(50);
    // The head takes 124 bytes and an entry 148; 128 are kept free.
    for (maxcount, expect) in [(0u32, 0usize), (127, 0), (400, 0), (401, 1), (548, 1), (549, 2), (1141, 6)] {
        let page = readdirplus(&ctx, 3, 0, 100_000, maxcount);
        assert_eq!(page.names.len(), expect, "maxcount {}", maxcount);
        assert!(!page.eof);
        assert_eq!(page.len, 124 + 148 * expect + 8);
        if expect > 0 {
            assert!(page.len <= maxcount as usize);
        }
    }
}

#[test]
fn readdirplus_goes_on_behind_the_cookie() {
    let ctx = crowded(50);
    let mut seen = Vec::new();
    let mut cookie = 0;
    let mut pages = 0;
    loop {
        let page = readdirplus(&ctx, 3, cookie, 256, 100_000);
        assert!(!page.names.is_empty());
        pages += 1;
        cookie = *page.ids.last().unwrap();
        seen.extend(page.names);
        if page.eof {
            break;
        }
    }
    assert!(pages > 1);
    assert_eq!(seen.len(), 50);
    for (i, n) in seen.iter().enumerate() {
        assert_eq!(n, format!("file{:06}", i).as_bytes());
    }
}

#[test]
fn readdirplus_of_a_short_directory_is_complete() {
    let ctx = context(Capabilities::ReadWrite);
    let page = readdirplus(&ctx, 1, 0, 8192, 32768);
    assert_eq!(page.names, vec![b"a.txt".to_vec(), b"dir".to_vec(), b"empty".to_vec()]);
    assert_eq!(page.ids, vec![2, 3, 5]);
    assert!(page.eof);
    let attr = ctx.vfs.getattr(1).unwrap();
    let mut verf = Vec::new();
    encode_u32(attr.mtime.seconds, &mut verf);
    encode_u32(attr.mtime.nseconds, &mut verf);
    assert_eq!(page.verf.to_vec(), verf);
    assert_eq!(
        page.verf,
        (((attr.mtime.seconds as u64) << 32) | attr.mtime.nseconds as u64).to_be_bytes()
    );

    let empty = readdirplus(&ctx, 5, 0, 8192, 32768);
    assert!(empty.names.is_empty());
    assert!(empty.eof);
}

#[test]
fn readdirplus_is_incomplete_where_the_file_system_has_more() {
    let ctx = crowded(50);
    // 160 / 16 = 10 entries are asked for, and all of them fit.
    let page = readdirplus(&ctx, 3, 0, 160, 100_000);
    assert_eq!(page.names.len(), 5);
    assert!(!page.eof);
    let ctx = crowded(3);
    let page = readdirplus(&ctx, 3, 0, 48, 100_000);
    assert_eq!(page.names.len(), 1);
    assert!(!page.eof);
}

#[test]
fn readdir_stays_within_the_count() {
    let ctx = crowded(50);
    // The head takes 124 bytes and an entry 4 + 8 + 16 + 8 = 36; 128 are kept free.
    for (count, expect) in [(0u32, 0usize), (288, 0), (289, 1), (324, 1), (325, 2), (10_000, 50)] {
        let page = readdir(&ctx, 3, 0, count);
        assert_eq!(page.names.len(), expect, "count {}", count);
        assert_eq!(page.eof, expect == 50);
        assert_eq!(page.len, 124 + 36 * expect + 8);
        if expect > 0 {
            assert!(page.len <= count as usize);
        }
    }
}

#[test]
fn readdir_goes_on_behind_the_cookie() {
    let ctx = crowded(50);
    let first = readdir(&ctx, 3, 0, 512);
    assert!(!first.eof);
    let second = readdir(&ctx, 3, *first.ids.last().unwrap(), 512);
    assert_eq!(second.names[0], format!("file{:06}", first.names.len()).as_bytes());
    let mut seen = 0;
    let mut cookie = 0;
    loop {
        let page = readdir(&ctx, 3, cookie, 1024);
        seen += page.names.len();
        if page.eof {
            break;
        }
        cookie = *page.ids.last().unwrap();
    }
    assert_eq!(seen, 50);
}

#[test]
fn readdir_failures() {
    let ctx = context(Capabilities::ReadWrite);
    let mut args = Vec::new();
    READDIR3args { dir: fh(2), cookie: 0, cookieverf: [0; 8], dircount: 4096 }.serialize(&mut args);
    let mut out = Vec::new();
    assert_eq!(nfsproc3_readdir(36, &args, &mut out, &ctx), Ok(()));
    let (stat, at) = status(&out, 36);
    assert_eq!(stat, nfsstat3::NFS3ERR_NOTDIR);
    assert_eq!(
        post_op_attr::deserialize(&out, at),
        Ok((post_op_attr::attributes(ctx.vfs.getattr(2).unwrap()), out.len()))
    );
    let mut args = Vec::new();
    READDIRPLUS3args { dir: fh(1), cookie: 12345, cookieverf: [0; 8], dircount: 4096, maxcount: 4096 }
        .serialize(&mut args);
    let mut out = Vec::new();
    assert_eq!(nfsproc3_readdirplus(35, &args, &mut out, &ctx), Ok(()));
    let (stat, _) = status(&out, 35);
    assert_eq!(stat, nfsstat3::NFS3ERR_BAD_COOKIE);
    let mut args = Vec::new();
    READDIRPLUS3args {
        dir: handle_of_id(GENERATION - 5, 1),
        cookie: 0,
        cookieverf: [0; 8],
        dircount: 4096,
        maxcount: 4096,
    }
    .serialize(&mut args);
    let mut out = Vec::new();
    assert_eq!(nfsproc3_readdirplus(35, &args, &mut out, &ctx), Ok(()));
    let (stat, at) = status(&out, 35);
    assert_eq!(stat, nfsstat3::NFS3ERR_STALE);
    assert_eq!(post_op_attr::deserialize(&out, at), Ok((post_op_attr::Void, out.len())));
    let mut out = Vec::new();
    assert_eq!(nfsproc3_readdirplus(35, &args[..40], &mut out, &ctx), Err(RpcError::Decode));
    assert!(out.is_empty());
}

// ---------------------------------------------------------------------
// dispatch
// ---------------------------------------------------------------------

#[test]
fn nfs_dispatch() {
    let ctx = context(Capabilities::ReadWrite);
    let args = args_of_handle(2);

    let mut out = Vec::new();
    assert_eq!(handle_nfs(1, &call(100003, 3, 0), &args, &mut out, &ctx), Ok(()));
    assert_eq!(out.len(), 24);

    let mut direct = Vec::new();
    nfsproc3_getattr(1, &args, &mut direct, &ctx).unwrap();
    let mut out = Vec::new();
    assert_eq!(handle_nfs(1, &call(100003, 3, 1), &args, &mut out, &ctx), Ok(()));
    assert_eq!(out, direct);

    let mut direct = Vec::new();
    nfsproc3_pathconf(1, &args, &mut direct, &ctx).unwrap();
    let mut out = Vec::new();
    assert_eq!(handle_nfs(1, &call(100003, 3, 20), &args, &mut out, &ctx), Ok(()));
    assert_eq!(out, direct);

    // RMDIR is REMOVE.
    let mut rm = Vec::new();
    dirop(1, b"empty").serialize(&mut rm);
    let mut out = Vec::new();
    assert_eq!(handle_nfs(1, &call(100003, 3, 13), &rm, &mut out, &ctx), Ok(()));
    assert_eq!(status(&out, 1).0, nfsstat3::NFS3_OK);
    assert_eq!(ctx.vfs.count("remove"), 1);

    for proc in [22, 23, 1000, u32::MAX] {
        let mut out = Vec::new();
        assert_eq!(handle_nfs(1, &call(100003, 3, proc), &args, &mut out, &ctx), Ok(()));
        assert_eq!(out, message(proc_unavail_reply_message(1)));
    }
    for vers in [2, 4] {
        let mut out = Vec::new();
        assert_eq!(handle_nfs(1, &call(100003, vers, 1), &args, &mut out, &ctx), Ok(()));
        assert_eq!(out, message(prog_mismatch_reply_message(1, 3)));
        let (msg, _) = rpc_msg::deserialize(&out, 0).unwrap();
        assert!(matches!(
            msg.body,
            rpc_body::REPLY(reply_body::MSG_ACCEPTED(a))
                if a.reply_data == accept_body::PROG_MISMATCH(mismatch_info { low: 3, high: 3 })
        ));
    }
    let mut out = Vec::new();
    assert_eq!(handle_nfs(1, &call(100003, 3, 1), &[1, 2], &mut out, &ctx), Err(RpcError::Decode));
    assert!(out.is_empty());
}

/// The same file system in another run of the server.
struct Later(MemFs);

impl NFSFileSystem for Later {
    fn generation(&self) -> u64 {
        7
    }

    fn capabilities(&self) -> Capabilities {
        self.0.capabilities()
    }

    fn root_dir(&self) -> fileid3 {
        self.0.root_dir()
    }

    fn lookup(&self, dirid: fileid3, filename: &filename3) -> Result<fileid3, nfsstat3> {
        self.0.lookup(dirid, filename)
    }

    fn getattr(&self, id: fileid3) -> Result<fattr3, nfsstat3> {
        self.0.getattr(id)
    }

    fn setattr(&self, id: fileid3, setattr: sattr3) -> Result<fattr3, nfsstat3> {
        self.0.setattr(id, setattr)
    }

    fn read(&self, id: fileid3, offset: u64, count: u32) -> Result<(Vec<u8>, bool), nfsstat3> {
        self.0.read(id, offset, count)
    }

    fn write(&self, id: fileid3, offset: u64, data: &[u8]) -> Result<fattr3, nfsstat3> {
        self.0.write(id, offset, data)
    }

    fn create(&self, dirid: fileid3, filename: &filename3, attr: sattr3) -> Result<(fileid3, fattr3), nfsstat3> {
        self.0.create(dirid, filename, attr)
    }

    fn create_exclusive(&self, dirid: fileid3, filename: &filename3) -> Result<fileid3, nfsstat3> {
        self.0.create_exclusive(dirid, filename)
    }

    fn mkdir(&self, dirid: fileid3, dirname: &filename3) -> Result<(fileid3, fattr3), nfsstat3> {
        self.0.mkdir(dirid, dirname)
    }

    fn remove(&self, dirid: fileid3, filename: &filename3) -> Result<(), nfsstat3> {
        self.0.remove(dirid, filename)
    }

    fn rename(&self, a: fileid3, b: &filename3, c: fileid3, d: &filename3) -> Result<(), nfsstat3> {
        self.0.rename(a, b, c, d)
    }

    fn readdir(&self, dirid: fileid3, start_after: fileid3, max_entries: usize) -> Result<ReadDirResult, nfsstat3> {
        self.0.readdir(dirid, start_after, max_entries)
    }

    fn symlink(&self, a: fileid3, b: &filename3, c: &nfspath3, d: &sattr3) -> Result<(fileid3, fattr3), nfsstat3> {
        self.0.symlink(a, b, c, d)
    }

    fn readlink(&self, id: fileid3) -> Result<nfspath3, nfsstat3> {
        self.0.readlink(id)
    }

    fn link(&self, a: fileid3, b: fileid3, c: &filename3) -> Result<fattr3, nfsstat3> {
        self.0.link(a, b, c)
    }

    fn mknod(&self, a: fileid3, b: &filename3, c: ftype3, d: specdata3, e: &sattr3) -> Result<(fileid3, fattr3), nfsstat3> {
        self.0.mknod(a, b, c, d, e)
    }

    fn commit(&self, file_id: fileid3, offset: u64, count: u32) -> Result<fattr3, nfsstat3> {
        self.0.commit(file_id, offset, count)
    }
}

#[test]
fn handles_and_paths_go_by_the_generation_and_the_root() {
    let ctx = Context {
        local_port: 1,
        client_addr: String::new(),
        auth: auth_unix::default(),
        vfs: Later(MemFs::new(Capabilities::ReadWrite)),
        export_name: "/".to_string(),
    };
    assert_eq!(ctx.vfs.id_to_fh(3), handle_of_id(7, 3));
    assert_eq!(ctx.vfs.fh_to_id(&handle_of_id(7, 3)), Ok(3));
    assert_eq!(ctx.vfs.fh_to_id(&handle_of_id(6, 3)), Err(nfsstat3::NFS3ERR_STALE));
    assert_eq!(ctx.vfs.fh_to_id(&handle_of_id(8, 3)), Err(nfsstat3::NFS3ERR_BADHANDLE));
    assert_eq!(ctx.vfs.fh_to_id(&nfs_fh3 { data: vec![0; 15] }), Err(nfsstat3::NFS3ERR_BADHANDLE));
    let mut args = Vec::new();
    diropargs3 { dir: handle_of_id(7, 1), name: name(b"dir") }.serialize(&mut args);
    let mut out = Vec::new();
    assert_eq!(nfsproc3_lookup(1, &args, &mut out, &ctx), Ok(()));
    let (stat, at) = status(&out, 1);
    assert_eq!(stat, nfsstat3::NFS3_OK);
    assert_eq!(nfs_fh3::deserialize(&out, at).unwrap().0, handle_of_id(7, 3));
    // A handle of a later run is malformed here.
    let mut args = Vec::new();
    dirop(1, b"dir").serialize(&mut args);
    let mut out = Vec::new();
    assert_eq!(nfsproc3_lookup(1, &args, &mut out, &ctx), Ok(()));
    assert_eq!(status(&out, 1).0, nfsstat3::NFS3ERR_BADHANDLE);
    assert_eq!(ctx.vfs.serverid(), 7u64.to_le_bytes());
    assert_eq!(ctx.vfs.path_to_id(b"/"), Ok(1));
    assert_eq!(ctx.vfs.path_to_id(b"///"), Ok(1));
    assert_eq!(ctx.vfs.path_to_id(b"/dir/b.txt"), Ok(4));
    assert_eq!(ctx.vfs.path_to_id(b"//dir//"), Ok(3));
    assert_eq!(ctx.vfs.path_to_id(b""), Ok(1));
    assert_eq!(ctx.vfs.path_to_id(b"/dir/nope/x"), Err(nfsstat3::NFS3ERR_NOENT));
    let simple = ctx.vfs.readdir_simple(1, 2).unwrap();
    assert_eq!(simple.entries.len(), 2);
    assert!(!simple.end);
    assert_eq!(simple.entries[1].name, name(b"dir"));
}

// ---------------------------------------------------------------------
// results from answers
// ---------------------------------------------------------------------

#[test]
fn changes_report_what_getattr_says_afterwards() {
    let ctx = context(Capabilities::ReadWrite);
    let mut out = Vec::new();
    assert_eq!(nfsproc3_write(40, &write_args(2, 0, 1, b"H"), &mut out, &ctx), Ok(()));
    let (res, _) = WRITE3resok::deserialize(&out, 28).unwrap();
    let now = ctx.vfs.getattr(2).unwrap();
    assert_eq!(now.nlink, 1);
    assert_eq!(res.file_wcc.after, post_op_attr::attributes(now));

    let mut args = Vec::new();
    COMMIT3args { file: fh(2), offset: 0, count: 0 }.serialize(&mut args);
    let mut out = Vec::new();
    assert_eq!(nfsproc3_commit(40, &args, &mut out, &ctx), Ok(()));
    let (res, _) = COMMIT3resok::deserialize(&out, 28).unwrap();
    assert_eq!(res.file_wcc.after, post_op_attr::attributes(now));

    let mut out = Vec::new();
    assert_eq!(nfsproc3_setattr(40, &setattr_args(2, 3, sattrguard3::Void), &mut out, &ctx), Ok(()));
    let (w, _) = wcc_data::deserialize(&out, 28).unwrap();
    assert_eq!(w.after, post_op_attr::attributes(ctx.vfs.getattr(2).unwrap()));
    assert_eq!(w.before, pre(now));
}

#[test]
fn changes_go_on_without_attributes() {
    let ctx = context(Capabilities::ReadWrite);
    // Nothing has the id 999, so `getattr` fails before and after.
    let mut out = Vec::new();
    assert_eq!(nfsproc3_write(41, &write_args(999, 0, 1, b"H"), &mut out, &ctx), Ok(()));
    assert_eq!(ctx.vfs.count("write"), 1);
    let mut args = Vec::new();
    dirop(999, b"x").serialize(&mut args);
    let mut out = Vec::new();
    assert_eq!(nfsproc3_remove(41, &args, &mut out, &ctx), Ok(()));
    assert_eq!(ctx.vfs.count("remove"), 1);
    let (stat, at) = status(&out, 41);
    assert_eq!(stat, nfsstat3::NFS3ERR_NOENT);
    assert_eq!(wcc_data::deserialize(&out, at), Ok((wcc_data::default(), out.len())));
    let mut out = Vec::new();
    assert_eq!(nfsproc3_setattr(41, &setattr_args(999, 3, sattrguard3::Void), &mut out, &ctx), Ok(()));
    assert_eq!(ctx.vfs.count("setattr"), 1);
    let mut out = Vec::new();
    assert_eq!(
        nfsproc3_create(41, &create_args(999, b"x", createhow3::UNCHECKED(sattr3::default())), &mut out, &ctx),
        Ok(())
    );
    assert_eq!(ctx.vfs.count("create"), 1);
    // A guard that names a time has nothing to go by where there are no
    // attributes: the reply is why there are none, and nothing is set.
    let guard = sattrguard3::obj_ctime(nfstime3 { seconds: 1, nseconds: 1 });
    let mut out = Vec::new();
    assert_eq!(nfsproc3_setattr(41, &setattr_args(999, 3, guard), &mut out, &ctx), Ok(()));
    let (stat, at) = status(&out, 41);
    assert_eq!(stat, nfsstat3::NFS3ERR_NOENT);
    assert_eq!(wcc_data::deserialize(&out, at), Ok((wcc_data::default(), out.len())));
    assert_eq!(ctx.vfs.count("setattr"), 1);
}
