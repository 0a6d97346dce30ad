//! The file system behind the server.
//!
//! An embedder implements [`NFSFileSystem`]; the procedure handlers call
//! it. Files are known by a 64-bit file id, much like an inode number. The
//! id 0 is reserved and names no file.
//!
//! Towards clients a file is known by an opaque handle of 16 bytes: the
//! generation number of the running server, then the file id, both least
//! significant byte first. A handle of an earlier run is stale; one of a
//! later run, or of another length, is malformed.

use crate::protocol::xdr::{lemma_u32_bytes, u32_bytes, u32_of_bytes};
use crate::protocol::xdr::nfs3::{
    cookieverf3, fattr3, fileid3, filename3, fsinfo3, ftype3, nfs_fh3, nfspath3, nfsstat3,
    nfsstring, nfstime3, post_op_attr, sattr3, specdata3, FSF_CANSETTIME, FSF_HOMOGENEOUS,
    FSF_SYMLINK,
};
use vstd::prelude::*;

verus! {

/// An entry of a directory listing that gives names only.
#[derive(Clone, Debug, PartialEq, Eq)]
pub struct DirEntrySimple {
    pub fileid: fileid3,
    pub name: filename3,
}

/// What a [`DirEntrySimple`] holds, as plain values.
pub struct DirEntrySimpleView {
    pub fileid: fileid3,
    pub name: Seq<u8>,
}

impl View for DirEntrySimple {
    type V = DirEntrySimpleView;

    open spec fn view(&self) -> DirEntrySimpleView {
        DirEntrySimpleView { fileid: self.fileid, name: self.name@ }
    }
}

/// A page of a directory listing that gives names only. `end` says that
/// the directory has no entries behind the last one of the page.
#[derive(Clone, Debug, PartialEq, Eq)]
pub struct ReadDirSimpleResult {
    pub entries: Vec<DirEntrySimple>,
    pub end: bool,
}

/// What a [`ReadDirSimpleResult`] holds, as plain values.
pub struct ReadDirSimpleResultView {
    pub entries: Seq<DirEntrySimpleView>,
    pub end: bool,
}

impl View for ReadDirSimpleResult {
    type V = ReadDirSimpleResultView;

    open spec fn view(&self) -> ReadDirSimpleResultView {
        ReadDirSimpleResultView {
            entries: Seq::new(self.entries@.len(), |i: int| self.entries@[i]@),
            end: self.end,
        }
    }
}

/// An entry of a directory listing, with the attributes of the file.
#[derive(Clone, Debug, PartialEq, Eq)]
pub struct DirEntry {
    pub fileid: fileid3,
    pub name: filename3,
    pub attr: fattr3,
}

/// What a [`DirEntry`] holds, as plain values.
pub struct DirEntryView {
    pub fileid: fileid3,
    pub name: Seq<u8>,
    pub attr: fattr3,
}

impl View for DirEntry {
    type V = DirEntryView;

    open spec fn view(&self) -> DirEntryView {
        DirEntryView { fileid: self.fileid, name: self.name@, attr: self.attr }
    }
}

/// A page of a directory listing. `end` says that the directory has no
/// entries behind the last one of the page.
#[derive(Clone, Debug, PartialEq, Eq)]
pub struct ReadDirResult {
    pub entries: Vec<DirEntry>,
    pub end: bool,
}

/// What a [`ReadDirResult`] holds, as plain values.
pub struct ReadDirResultView {
    pub entries: Seq<DirEntryView>,
    pub end: bool,
}

impl View for ReadDirResult {
    type V = ReadDirResultView;

    open spec fn view(&self) -> ReadDirResultView {
        ReadDirResultView {
            entries: Seq::new(self.entries@.len(), |i: int| self.entries@[i]@),
            end: self.end,
        }
    }
}

/// A listing without the attributes: the same entries in the same order,
/// and the same `end`.
pub open spec fn without_attributes(full: ReadDirResultView) -> ReadDirSimpleResultView {
    ReadDirSimpleResultView {
        entries: Seq::new(
            full.entries.len(),
            |i: int|
                DirEntrySimpleView { fileid: full.entries[i].fileid, name: full.entries[i].name },
        ),
        end: full.end,
    }
}

impl ReadDirSimpleResult {
    /// The listing without its attributes.
    pub fn from_readdir_result(result: &ReadDirResult) -> (r: ReadDirSimpleResult)
        ensures
            r@ == without_attributes(result@),
    {
        let mut entries: Vec<DirEntrySimple> = Vec::new();
        let n = result.entries.len();
        let mut i: usize = 0;
        while i < n
            invariant
                i <= n,
                n == result.entries@.len(),
                entries@.len() == i,
                forall|k: int|
                    0 <= k < i ==> (#[trigger] entries@[k])@ == (DirEntrySimpleView {
                        fileid: result.entries@[k].fileid,
                        name: result.entries@[k].name@,
                    }),
            decreases n - i,
        {
            let e = &result.entries[i];
            entries.push(DirEntrySimple { fileid: e.fileid, name: e.name.duplicate() });
            i += 1;
        }
        let r = ReadDirSimpleResult { entries, end: result.end };
        assert(r@.entries =~= without_attributes(result@).entries);
        r
    }
}

/// What a file system lets clients do.
#[derive(Copy, Clone, Debug, PartialEq, Eq, Structural)]
pub enum Capabilities {
    ReadOnly,
    ReadWrite,
}

// ---------------------------------------------------------------------
// file handles
// ---------------------------------------------------------------------

/// The eight bytes of `v`, least significant first.
pub open spec fn u64_le_bytes(v: u64) -> Seq<u8> {
    let lo = u32_bytes((v % 0x1_0000_0000) as u32);
    let hi = u32_bytes((v / 0x1_0000_0000) as u32);
    seq![lo.3, lo.2, lo.1, lo.0, hi.3, hi.2, hi.1, hi.0]
}

/// The little-endian value of the eight bytes of `s` that start at `at`.
pub open spec fn le_u64(s: Seq<u8>, at: int) -> u64 {
    (u32_of_bytes(s[at + 3], s[at + 2], s[at + 1], s[at]) as int + u32_of_bytes(
        s[at + 7],
        s[at + 6],
        s[at + 5],
        s[at + 4],
    ) as int * 0x1_0000_0000) as u64
}

/// The handle of the file `id` in the run `generation` of the server.
pub open spec fn handle_bytes(generation: u64, id: fileid3) -> Seq<u8> {
    u64_le_bytes(generation) + u64_le_bytes(id)
}

/// What a handle names in the run `generation` of the server.
pub open spec fn resolve_handle(generation: u64, handle: Seq<u8>) -> Result<fileid3, nfsstat3> {
    if handle.len() != 16 {
        Err(nfsstat3::NFS3ERR_BADHANDLE)
    } else if le_u64(handle, 0) < generation {
        Err(nfsstat3::NFS3ERR_STALE)
    } else if le_u64(handle, 0) > generation {
        Err(nfsstat3::NFS3ERR_BADHANDLE)
    } else {
        Ok(le_u64(handle, 8))
    }
}

/// Reading back the bytes of a number gives the number.
pub proof fn lemma_le_u64_roundtrip(v: u64)
    ensures
        le_u64(u64_le_bytes(v), 0) == v,
{
    lemma_u32_bytes((v % 0x1_0000_0000) as u32);
    lemma_u32_bytes((v / 0x1_0000_0000) as u32);
}

/// A handle given out in a run of the server names, in that run, the
/// file it was made for.
pub proof fn lemma_handle_roundtrip(generation: u64, id: fileid3)
    ensures
        resolve_handle(generation, handle_bytes(generation, id)) == Ok::<fileid3, nfsstat3>(id),
{
    let h = handle_bytes(generation, id);
    lemma_le_u64_roundtrip(generation);
    lemma_le_u64_roundtrip(id);
    assert(le_u64(h, 0) == le_u64(u64_le_bytes(generation), 0));
    assert(le_u64(h, 8) == le_u64(u64_le_bytes(id), 0));
}

/// A handle that is not 16 bytes long is malformed. A handle of 16 bytes
/// made in another run is stale where that run was earlier, and malformed
/// where it was later.
pub proof fn lemma_handle_rejected(generation: u64, handle: Seq<u8>, made_in: u64, id: fileid3)
    ensures
        handle.len() != 16 ==> resolve_handle(generation, handle) == Err::<fileid3, nfsstat3>(
            nfsstat3::NFS3ERR_BADHANDLE,
        ),
        made_in < generation ==> resolve_handle(generation, handle_bytes(made_in, id)) == Err::<
            fileid3,
            nfsstat3,
        >(nfsstat3::NFS3ERR_STALE),
        made_in > generation ==> resolve_handle(generation, handle_bytes(made_in, id)) == Err::<
            fileid3,
            nfsstat3,
        >(nfsstat3::NFS3ERR_BADHANDLE),
{
    let h = handle_bytes(made_in, id);
    lemma_le_u64_roundtrip(made_in);
    assert(le_u64(h, 0) == le_u64(u64_le_bytes(made_in), 0));
}

/// The bytes of `v`, least significant first.
pub fn u64_to_le(v: u64) -> (r: [u8; 8])
    ensures
        r@ == u64_le_bytes(v),
{
    let lo = (v % 0x1_0000_0000) as u32;
    let hi = (v / 0x1_0000_0000) as u32;
    proof {
        reveal(u32_bytes);
    }
    let r: [u8; 8] = [
        (lo % 0x100) as u8,
        ((lo / 0x100) % 0x100) as u8,
        ((lo / 0x1_0000) % 0x100) as u8,
        (lo / 0x100_0000) as u8,
        (hi % 0x100) as u8,
        ((hi / 0x100) % 0x100) as u8,
        ((hi / 0x1_0000) % 0x100) as u8,
        (hi / 0x100_0000) as u8,
    ];
    assert(r@ =~= u64_le_bytes(v));
    r
}

/// The value of the eight bytes at `at`, least significant first.
pub fn u64_from_le(bytes: &[u8], at: usize) -> (v: u64)
    requires
        at + 8 <= bytes@.len(),
    ensures
        v == le_u64(bytes@, at as int),
{
    proof {
        reveal(u32_of_bytes);
    }
    let lo: u64 = bytes[at] as u64 + bytes[at + 1] as u64 * 0x100 + bytes[at + 2] as u64 * 0x1_0000
        + bytes[at + 3] as u64 * 0x100_0000;
    let hi: u64 = bytes[at + 4] as u64 + bytes[at + 5] as u64 * 0x100 + bytes[at + 6] as u64
        * 0x1_0000 + bytes[at + 7] as u64 * 0x100_0000;
    lo + hi * 0x1_0000_0000
}

/// The handle of the file `id` in the run `generation` of the server.
pub fn handle_of_id(generation: u64, id: fileid3) -> (fh: nfs_fh3)
    ensures
        fh@ == handle_bytes(generation, id),
        fh@.len() == 16,
{
    let mut data: Vec<u8> = Vec::new();
    let g = u64_to_le(generation);
    let i = u64_to_le(id);
    data.extend_from_slice(g.as_slice());
    data.extend_from_slice(i.as_slice());
    assert(data@ =~= handle_bytes(generation, id));
    nfs_fh3 { data }
}

/// The file that `fh` names in the run `generation` of the server, or why
/// it names none.
pub fn id_of_handle(generation: u64, fh: &nfs_fh3) -> (r: Result<fileid3, nfsstat3>)
    ensures
        r == resolve_handle(generation, fh@),
{
    if fh.data.len() != 16 {
        return Err(nfsstat3::NFS3ERR_BADHANDLE);
    }
    let made_in = u64_from_le(fh.data.as_slice(), 0);
    let id = u64_from_le(fh.data.as_slice(), 8);
    if made_in < generation {
        Err(nfsstat3::NFS3ERR_STALE)
    } else if made_in > generation {
        Err(nfsstat3::NFS3ERR_BADHANDLE)
    } else {
        Ok(id)
    }
}

// ---------------------------------------------------------------------
// paths
// ---------------------------------------------------------------------

/// The names along `path`: its longest runs of bytes other than `/`, in
/// the order in which they stand. Slashes at either end, and runs of
/// slashes, separate names and make none.
pub open spec fn path_components(path: Seq<u8>) -> Seq<Seq<u8>>
    decreases path.len(),
{
    if path.len() == 0 {
        Seq::empty()
    } else {
        let front = path.drop_last();
        let names = path_components(front);
        if path.last() == 0x2f {
            names
        } else if front.len() > 0 && front.last() != 0x2f {
            names.drop_last().push(names.last().push(path.last()))
        } else {
            names.push(seq![path.last()])
        }
    }
}

/// What a list of names holds, as plain values.
pub open spec fn names_view(names: Seq<filename3>) -> Seq<Seq<u8>> {
    Seq::new(names.len(), |i: int| names[i]@)
}

/// Splits a path into its names.
pub fn split_path(path: &[u8]) -> (names: Vec<filename3>)
    ensures
        names_view(names@) == path_components(path@),
{
    let mut names: Vec<filename3> = Vec::new();
    let mut start: usize = 0;
    let mut i: usize = 0;
    let n = path.len();
    while i < n
        invariant
            n == path@.len(),
            start <= i <= n,
            forall|k: int| start <= k < i ==> path@[k] != 0x2f,
            start == 0 || path@[start - 1] == 0x2f,
            start < i ==> names_view(names@).push(path@.subrange(start as int, i as int))
                == path_components(path@.subrange(0, i as int)),
            start == i ==> names_view(names@) == path_components(path@.subrange(0, i as int)),
        decreases n - i,
    {
        let ghost before = path@.subrange(0, i as int);
        let ghost after = path@.subrange(0, i + 1);
        assert(after.drop_last() =~= before);
        if path[i] == 0x2f {
            if start < i {
                let name = nfsstring::from_bytes(vstd::slice::slice_subrange(path, start, i));
                let ghost old_names = names_view(names@);
                names.push(name);
                assert(names_view(names@) =~= old_names.push(
                    path@.subrange(start as int, i as int),
                ));
            }
            start = i + 1;
        } else {
            let ghost run = path@.subrange(start as int, i + 1);
            if start < i {
                let ghost old_run = path@.subrange(start as int, i as int);
                assert(run =~= old_run.push(path@[i as int]));
                assert(before.last() != 0x2f);
                let ghost all = names_view(names@).push(old_run);
                assert(all.drop_last() =~= names_view(names@));
                assert(all.last() == old_run);
            } else {
                assert(run =~= seq![path@[i as int]]);
                assert(before.len() > 0 ==> before.last() == 0x2f);
            }
        }
        i += 1;
    }
    assert(path@.subrange(0, n as int) =~= path@);
    if start < n {
        let name = nfsstring::from_bytes(vstd::slice::slice_subrange(path, start, n));
        let ghost old_names = names_view(names@);
        names.push(name);
        assert(names_view(names@) =~= old_names.push(path@.subrange(start as int, n as int)));
    }
    names
}

/// Where a walk along a path stands.
#[derive(Copy, Clone, Debug, PartialEq, Eq)]
pub enum Walk {
    /// The name with the index `name` is to be looked up in `dir`.
    Lookup { dir: fileid3, name: usize },
    /// The walk has come to its end.
    Done(Result<fileid3, nfsstat3>),
}

/// How a walk along `names` names starts from `root`.
pub open spec fn walk_first(root: fileid3, names: int) -> Walk {
    if names == 0 {
        Walk::Done(Ok(root))
    } else {
        Walk::Lookup { dir: root, name: 0 }
    }
}

/// How a walk along `names` names goes on when the name with the index
/// `name` was looked up: an error ends it, the last name ends it with
/// what was found, and every other name is followed by the next, which
/// is looked up in what was found.
pub open spec fn walk_next(names: int, name: int, found: Result<fileid3, nfsstat3>) -> Walk {
    match found {
        Err(stat) => Walk::Done(Err(stat)),
        Ok(next) => if name + 1 < names {
            Walk::Lookup { dir: next, name: (name + 1) as usize }
        } else {
            Walk::Done(Ok(next))
        },
    }
}

/// Where a walk along `names` names from `root` stands after the
/// lookups that answered `found`. Answers behind the end of the walk are
/// of no account.
pub open spec fn walk_after(
    root: fileid3,
    names: int,
    found: Seq<Result<fileid3, nfsstat3>>,
) -> Walk
    decreases found.len(),
{
    if found.len() == 0 {
        walk_first(root, names)
    } else {
        match walk_after(root, names, found.drop_last()) {
            Walk::Done(r) => Walk::Done(r),
            Walk::Lookup { dir, name } => walk_next(names, name as int, found.last()),
        }
    }
}

/// Starts a walk.
pub fn walk_start(root: fileid3, names: usize) -> (w: Walk)
    ensures
        w == walk_first(root, names as int),
{
    if names == 0 {
        Walk::Done(Ok(root))
    } else {
        Walk::Lookup { dir: root, name: 0 }
    }
}

/// Takes a walk one name further.
pub fn walk_step(names: usize, name: usize, found: Result<fileid3, nfsstat3>) -> (w: Walk)
    requires
        name < names,
    ensures
        w == walk_next(names as int, name as int, found),
{
    match found {
        Err(stat) => Walk::Done(Err(stat)),
        Ok(next) => {
            if name + 1 < names {
                Walk::Lookup { dir: next, name: name + 1 }
            } else {
                Walk::Done(Ok(next))
            }
        },
    }
}

/// What a client asks of a listing: the entry behind which to go on, and
/// how many entries to give at most.
#[derive(Copy, Clone, Debug, PartialEq, Eq)]
pub struct ListingRequest {
    pub start_after: fileid3,
    pub max_entries: usize,
}

/// What the file system is asked for a page of a listing: the entries
/// behind the cookie of the client, one for every 16 bytes that the
/// client allows for names.
pub fn listing_request(cookie: u64, dircount: u32) -> (req: ListingRequest)
    ensures
        req.start_after == cookie,
        req.max_entries == dircount / 16,
{
    ListingRequest { start_after: cookie, max_entries: (dircount / 16) as usize }
}

// ---------------------------------------------------------------------
// what a file system reports of itself when it says nothing else
// ---------------------------------------------------------------------

/// The limits and properties that FSINFO reports: reads and writes of up
/// to 1 MiB, files of up to 128 GiB, times to the millisecond, symbolic
/// links, and times that clients may set.
pub open spec fn fsinfo_defaults(obj_attributes: post_op_attr) -> fsinfo3 {
    fsinfo3 {
        obj_attributes,
        rtmax: 1048576,
        rtpref: 126976,
        rtmult: 1048576,
        wtmax: 1048576,
        wtpref: 1048576,
        wtmult: 1048576,
        dtpref: 1048576,
        maxfilesize: 137438953472,
        time_delta: nfstime3 { seconds: 0, nseconds: 1000000 },
        properties: 0x1a,
    }
}

/// The limits and properties that FSINFO reports by default.
pub fn default_fsinfo(obj_attributes: post_op_attr) -> (r: fsinfo3)
    ensures
        r == fsinfo_defaults(obj_attributes),
{
    assert(FSF_SYMLINK | FSF_HOMOGENEOUS | FSF_CANSETTIME == 0x1a) by (bit_vector);
    fsinfo3 {
        obj_attributes,
        rtmax: 1024 * 1024,
        rtpref: 1024 * 124,
        rtmult: 1024 * 1024,
        wtmax: 1024 * 1024,
        wtpref: 1024 * 1024,
        wtmult: 1024 * 1024,
        dtpref: 1024 * 1024,
        maxfilesize: 128 * 1024 * 1024 * 1024,
        time_delta: nfstime3 { seconds: 0, nseconds: 1000000 },
        properties: FSF_SYMLINK | FSF_HOMOGENEOUS | FSF_CANSETTIME,
    }
}

/// The attributes that a reply carries behind an operation: those that
/// the file system gave, or none where it gave an error.
pub open spec fn post_op_of(attr: Result<fattr3, nfsstat3>) -> post_op_attr {
    match attr {
        Ok(a) => post_op_attr::attributes(a),
        Err(_) => post_op_attr::Void,
    }
}

/// The attributes that a reply carries behind an operation.
pub fn post_op(attr: &Result<fattr3, nfsstat3>) -> (r: post_op_attr)
    ensures
        r == post_op_of(*attr),
{
    match attr {
        Ok(a) => post_op_attr::attributes(*a),
        Err(_) => post_op_attr::Void,
    }
}

// ---------------------------------------------------------------------
// the interface
// ---------------------------------------------------------------------

/// What stays the same of a file system while it is served.
pub struct Served {
    /// What the file system lets clients do.
    pub caps: Capabilities,
    /// The generation of this run of the server.
    pub generation: u64,
    /// The root directory.
    pub root: fileid3,
    /// Whether the file system reports limits of its own.
    pub own_limits: bool,
}

/// What stays the same of `vfs` while it is served.
pub open spec fn served<V: NFSFileSystem>(vfs: &V) -> Served {
    Served {
        caps: vfs.caps_of(),
        generation: vfs.generation_of(),
        root: vfs.root_of(),
        own_limits: vfs.own_limits(),
    }
}

/// What an embedder implements to serve a file system.
///
/// The server may call every operation from several tasks at once.
/// `getattr` and `lookup` are called for nearly every request and should
/// be fast. Operations that change the file system answer
/// `NFS3ERR_ROFS` where it is read-only.
///
/// Listings are paged by position: `readdir` is given the id of the entry
/// behind which to go on, and an entry named there may be the last one of
/// the page before. No cookie verifier is checked.
///
/// Three things about a file system never change while it is served,
/// and have a name here: what it allows, its generation and its root
/// directory. Of what the operations on files answer nothing is
/// promised: the handlers are proved for every answer.
///
/// Handles, the verifier of the server and the way a path is walked are
/// those of the library. An implementation may compute them in a way of
/// its own, and must come to the same. The limits that FSINFO reports
/// are those of the library unless the file system has its own.
pub trait NFSFileSystem {
    /// The generation of this run of the server. An implementation that
    /// is verified says what it is; of every other, it is the number
    /// that `generation` returns.
    open spec fn generation_of(&self) -> u64 {
        arbitrary()
    }

    /// The number that marks this run of the server: the same for as long
    /// as the process lives, and greater in every later run. The time at
    /// which the process started, in milliseconds, serves.
    fn generation(&self) -> (g: u64)
        ensures
            g == self.generation_of(),
    ;

    /// What the file system lets clients do. An implementation that is
    /// verified says what it is; of every other, it is what
    /// `capabilities` returns.
    open spec fn caps_of(&self) -> Capabilities {
        arbitrary()
    }

    /// What the file system lets clients do. This does not change while
    /// the file system is served.
    fn capabilities(&self) -> (caps: Capabilities)
        ensures
            caps == self.caps_of(),
    ;

    /// The root directory of the file system. An implementation that is
    /// verified says what it is; of every other, it is the id that
    /// `root_dir` returns.
    open spec fn root_of(&self) -> fileid3 {
        arbitrary()
    }

    /// The id of the root directory.
    fn root_dir(&self) -> (id: fileid3)
        ensures
            id == self.root_of(),
    ;

    /// The id of the entry `filename` of the directory `dirid`.
    fn lookup(&self, dirid: fileid3, filename: &filename3) -> Result<fileid3, nfsstat3>;

    /// The attributes of a file.
    fn getattr(&self, id: fileid3) -> Result<fattr3, nfsstat3>;

    /// Sets attributes of a file and returns those it then has.
    fn setattr(&self, id: fileid3, setattr: sattr3) -> Result<fattr3, nfsstat3>;

    /// Up to `count` bytes of a file from `offset` on, and whether the end
    /// of the file was reached. A range that runs past the end gives the
    /// bytes up to the end.
    fn read(&self, id: fileid3, offset: u64, count: u32) -> Result<(Vec<u8>, bool), nfsstat3>;

    /// Writes `data` into a file at `offset`, extending the file where the
    /// range runs past its end, and returns the attributes it then has.
    fn write(&self, id: fileid3, offset: u64, data: &[u8]) -> Result<fattr3, nfsstat3>;

    /// Makes a file with the given attributes.
    fn create(&self, dirid: fileid3, filename: &filename3, attr: sattr3) -> Result<
        (fileid3, fattr3),
        nfsstat3,
    >;

    /// Makes a file unless the name exists.
    fn create_exclusive(&self, dirid: fileid3, filename: &filename3) -> Result<fileid3, nfsstat3>;

    /// Makes a directory.
    fn mkdir(&self, dirid: fileid3, dirname: &filename3) -> Result<(fileid3, fattr3), nfsstat3>;

    /// Removes a file or a directory.
    fn remove(&self, dirid: fileid3, filename: &filename3) -> Result<(), nfsstat3>;

    /// Moves an entry to another name, and possibly another directory.
    fn rename(
        &self,
        from_dirid: fileid3,
        from_filename: &filename3,
        to_dirid: fileid3,
        to_filename: &filename3,
    ) -> Result<(), nfsstat3>;

    /// Up to `max_entries` entries of a directory, from the one behind
    /// the entry with id `start_after` on; from the first where that is 0.
    /// The order of the entries must not change between calls.
    fn readdir(&self, dirid: fileid3, start_after: fileid3, max_entries: usize) -> Result<
        ReadDirResult,
        nfsstat3,
    >;

    /// The first `count` entries of a directory, by name and id only.
    fn readdir_simple(&self, dirid: fileid3, count: usize) -> Result<
        ReadDirSimpleResult,
        nfsstat3,
    > {
        match self.readdir(dirid, 0, count) {
            Ok(full) => Ok(ReadDirSimpleResult::from_readdir_result(&full)),
            Err(stat) => Err(stat),
        }
    }

    /// Makes a symbolic link.
    fn symlink(
        &self,
        dirid: fileid3,
        linkname: &filename3,
        symlink: &nfspath3,
        attr: &sattr3,
    ) -> Result<(fileid3, fattr3), nfsstat3>;

    /// The target of a symbolic link.
    fn readlink(&self, id: fileid3) -> Result<nfspath3, nfsstat3>;

    /// Makes a hard link to a file and returns the attributes of the file.
    fn link(&self, file_id: fileid3, link_dir_id: fileid3, link_name: &filename3) -> Result<
        fattr3,
        nfsstat3,
    >;

    /// Makes a special file: a device, a socket or a named pipe.
    fn mknod(
        &self,
        dir_id: fileid3,
        name: &filename3,
        ftype: ftype3,
        specdata: specdata3,
        attrs: &sattr3,
    ) -> Result<(fileid3, fattr3), nfsstat3>;

    /// Brings written data of a file to stable storage and returns the
    /// attributes of the file.
    fn commit(&self, file_id: fileid3, offset: u64, count: u32) -> Result<fattr3, nfsstat3>;

    /// Whether the file system reports limits of its own through
    /// `fsinfo`. One that leaves `fsinfo` as it is does not.
    open spec fn own_limits(&self) -> bool {
        arbitrary()
    }

    /// What does not change about the file system. Unless the file
    /// system has limits of its own, these are the limits and properties
    /// of [`fsinfo_defaults`], with the attributes of `root_fileid` where
    /// `getattr` gives them, and the call does not fail.
    fn fsinfo(&self, root_fileid: fileid3) -> (r: Result<fsinfo3, nfsstat3>)
        ensures
            !self.own_limits() ==> (r matches Ok(info) && info == fsinfo_defaults(
                info.obj_attributes,
            )),
    {
        let attr = self.getattr(root_fileid);
        Ok(default_fsinfo(post_op(&attr)))
    }

    /// The handle under which clients know a file: 16 bytes, the
    /// generation and then the file id, each least significant byte
    /// first.
    fn id_to_fh(&self, id: fileid3) -> (fh: nfs_fh3)
        ensures
            fh@ == handle_bytes(self.generation_of(), id),
    {
        handle_of_id(self.generation(), id)
    }

    /// The file that a handle names. A handle that is not 16 bytes long
    /// is malformed, one of an earlier generation is stale, one of a
    /// later generation is malformed; every other handle names the file
    /// whose id it holds.
    fn fh_to_id(&self, id: &nfs_fh3) -> (r: Result<fileid3, nfsstat3>)
        ensures
            r == resolve_handle(self.generation_of(), id@),
    {
        id_of_handle(self.generation(), id)
    }

    /// The file at the end of a path. The path is walked from the root,
    /// one `lookup` for each of its names in turn, each in the directory
    /// that the one before found. The first `lookup` that fails ends the
    /// walk with its error. A path without names is the root.
    fn path_to_id(&self, path: &[u8]) -> (r: Result<fileid3, nfsstat3>)
        ensures
            exists|found: Seq<Result<fileid3, nfsstat3>>| #[trigger]
                walk_after(self.root_of(), path_components(path@).len() as int, found)
                    == Walk::Done(r),
            path_components(path@).len() == 0 ==> r == Ok::<fileid3, nfsstat3>(self.root_of()),
    {
        let names = split_path(path);
        assert(names_view(names@).len() == names@.len());
        let ghost root = self.root_of();
        let ghost count = names@.len() as int;
        let ghost mut found: Seq<Result<fileid3, nfsstat3>> = Seq::empty();
        let mut walk = walk_start(self.root_dir(), names.len());
        loop
            invariant
                count == names@.len() == path_components(path@).len(),
                root == self.root_of(),
                walk == walk_after(root, count, found),
                walk matches Walk::Lookup { name, .. } ==> name < count,
                count == 0 ==> walk == Walk::Done(Ok::<fileid3, nfsstat3>(root)),
            decreases
                    match walk {
                        Walk::Lookup { name, .. } => count - name + 1,
                        Walk::Done(_) => 0,
                    },
        {
            match walk {
                Walk::Done(r) => {
                    return r;
                },
                Walk::Lookup { dir, name } => {
                    let answer = self.lookup(dir, &names[name]);
                    let ghost before = found;
                    proof {
                        found = found.push(answer);
                        assert(found.drop_last() =~= before);
                    }
                    walk = walk_step(names.len(), name, answer);
                },
            }
        }
    }

    /// Eight bytes that tell this run of the server from every other: the
    /// generation, least significant byte first.
    fn serverid(&self) -> (verf: cookieverf3)
        ensures
            verf@ == u64_le_bytes(self.generation_of()),
    {
        u64_to_le(self.generation())
    }
}

} // verus!
