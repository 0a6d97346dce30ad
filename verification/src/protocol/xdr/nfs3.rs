//! The basic data types of NFS version 3 (RFC 1813, section 2.5) and the
//! arguments that several procedures share.
#![allow(non_camel_case_types)]

use crate::protocol::xdr::{
    bool_wire, decode_bool, decode_opaque, decode_u32, decode_u64, encode_bool, encode_opaque,
    encode_u32, encode_u64, holds_at, lemma_concat_assoc, lemma_holds_at_concat,
    lemma_roundtrip_bool, lemma_roundtrip_opaque, lemma_roundtrip_u32, lemma_roundtrip_u64,
    opaque_encodable, opaque_fits, opaque_wire, parse_bool, parse_opaque, parse_u32, parse_u64,
    u32_wire, u64_wire, DecodeError,
};
use vstd::prelude::*;

pub mod dir;
pub mod file;
pub mod fs;

pub use dir::{
    devicedata3, devicetype3, entry3, entry3View, entryplus3, entryplus3View, mknoddata3,
    MKDIR3args, MKDIR3argsView, MKNOD3args, MKNOD3argsView, READDIR3args, READDIR3argsView,
    READDIRPLUS3args, READDIRPLUS3argsView, RENAME3args, RENAME3argsView, SYMLINK3args,
    SYMLINK3argsView,
};
pub use file::{
    createhow3, stable_how, COMMIT3args, COMMIT3argsView, COMMIT3resok, COMMIT3resokView,
    CREATE3args, CREATE3argsView, LINK3args, LINK3argsView, READ3args, READ3argsView,
    READ3resok, READ3resokView, WRITE3args, WRITE3argsView, WRITE3resok, WRITE3resokView,
};
pub use fs::{
    fsinfo3, FSSTAT3resok, PATHCONF3resok, FSF_CANSETTIME, FSF_HOMOGENEOUS, FSF_LINK,
    FSF_SYMLINK,
};

verus! {

/// The RPC program number of NFS.
pub const PROGRAM: u32 = 100003;

/// The version of NFS that is served.
pub const VERSION: u32 = 3;

/// The largest size in bytes of an opaque file handle.
pub const NFS3_FHSIZE: u32 = 64;

/// The size in bytes of the cookie verifier of READDIR and READDIRPLUS.
pub const NFS3_COOKIEVERFSIZE: u32 = 8;

/// The size in bytes of the verifier of an exclusive CREATE.
pub const NFS3_CREATEVERFSIZE: u32 = 8;

/// The size in bytes of the verifier of asynchronous WRITE.
pub const NFS3_WRITEVERFSIZE: u32 = 8;

/// Read data from a file or read a directory.
pub const ACCESS3_READ: u32 = 0x0001;

/// Look up a name in a directory.
pub const ACCESS3_LOOKUP: u32 = 0x0002;

/// Rewrite existing file data or modify existing directory entries.
pub const ACCESS3_MODIFY: u32 = 0x0004;

/// Write new data or add directory entries.
pub const ACCESS3_EXTEND: u32 = 0x0008;

/// Delete an existing directory entry.
pub const ACCESS3_DELETE: u32 = 0x0010;

/// Execute a file or search a directory.
pub const ACCESS3_EXECUTE: u32 = 0x0020;

/// The number by which the file system knows a file.
pub type fileid3 = u64;

/// A position in a directory listing.
pub type cookie3 = u64;

/// What tells a client whether its cookies still hold.
pub type cookieverf3 = [u8; 8];

/// What tells apart the repetitions of an exclusive CREATE.
pub type createverf3 = [u8; 8];

/// What tells a client whether the server lost unstable writes.
pub type writeverf3 = [u8; 8];

/// The id of a user.
pub type uid3 = u32;

/// The id of a group.
pub type gid3 = u32;

/// The size of a file in bytes.
pub type size3 = u64;

/// A position in a file, in bytes.
pub type offset3 = u64;

/// The permission bits of a file.
pub type mode3 = u32;

/// A number of bytes.
pub type count3 = u32;

/// One name in a directory.
pub type filename3 = nfsstring;

/// A path, as the target of a symbolic link.
pub type nfspath3 = nfsstring;

/// The procedures of the NFS program, by number. `INVALID` stands for every
/// number that names none.
#[derive(Copy, Clone, Debug, PartialEq, Eq, Structural)]
pub enum NFSProgram {
    NFSPROC3_NULL,
    NFSPROC3_GETATTR,
    NFSPROC3_SETATTR,
    NFSPROC3_LOOKUP,
    NFSPROC3_ACCESS,
    NFSPROC3_READLINK,
    NFSPROC3_READ,
    NFSPROC3_WRITE,
    NFSPROC3_CREATE,
    NFSPROC3_MKDIR,
    NFSPROC3_SYMLINK,
    NFSPROC3_MKNOD,
    NFSPROC3_REMOVE,
    NFSPROC3_RMDIR,
    NFSPROC3_RENAME,
    NFSPROC3_LINK,
    NFSPROC3_READDIR,
    NFSPROC3_READDIRPLUS,
    NFSPROC3_FSSTAT,
    NFSPROC3_FSINFO,
    NFSPROC3_PATHCONF,
    NFSPROC3_COMMIT,
    INVALID,
}

impl NFSProgram {
    /// The number that stands for the variant on the wire.
    pub open spec fn code(self) -> u32 {
        match self {
            NFSProgram::NFSPROC3_NULL => 0,
            NFSProgram::NFSPROC3_GETATTR => 1,
            NFSProgram::NFSPROC3_SETATTR => 2,
            NFSProgram::NFSPROC3_LOOKUP => 3,
            NFSProgram::NFSPROC3_ACCESS => 4,
            NFSProgram::NFSPROC3_READLINK => 5,
            NFSProgram::NFSPROC3_READ => 6,
            NFSProgram::NFSPROC3_WRITE => 7,
            NFSProgram::NFSPROC3_CREATE => 8,
            NFSProgram::NFSPROC3_MKDIR => 9,
            NFSProgram::NFSPROC3_SYMLINK => 10,
            NFSProgram::NFSPROC3_MKNOD => 11,
            NFSProgram::NFSPROC3_REMOVE => 12,
            NFSProgram::NFSPROC3_RMDIR => 13,
            NFSProgram::NFSPROC3_RENAME => 14,
            NFSProgram::NFSPROC3_LINK => 15,
            NFSProgram::NFSPROC3_READDIR => 16,
            NFSProgram::NFSPROC3_READDIRPLUS => 17,
            NFSProgram::NFSPROC3_FSSTAT => 18,
            NFSProgram::NFSPROC3_FSINFO => 19,
            NFSProgram::NFSPROC3_PATHCONF => 20,
            NFSProgram::NFSPROC3_COMMIT => 21,
            NFSProgram::INVALID => 22,
        }
    }

    /// The variant that a number stands for, if any.
    pub open spec fn from_code(c: u32) -> Option<NFSProgram> {
        if c == 0 {
            Some(NFSProgram::NFSPROC3_NULL)
        } else if c == 1 {
            Some(NFSProgram::NFSPROC3_GETATTR)
        } else if c == 2 {
            Some(NFSProgram::NFSPROC3_SETATTR)
        } else if c == 3 {
            Some(NFSProgram::NFSPROC3_LOOKUP)
        } else if c == 4 {
            Some(NFSProgram::NFSPROC3_ACCESS)
        } else if c == 5 {
            Some(NFSProgram::NFSPROC3_READLINK)
        } else if c == 6 {
            Some(NFSProgram::NFSPROC3_READ)
        } else if c == 7 {
            Some(NFSProgram::NFSPROC3_WRITE)
        } else if c == 8 {
            Some(NFSProgram::NFSPROC3_CREATE)
        } else if c == 9 {
            Some(NFSProgram::NFSPROC3_MKDIR)
        } else if c == 10 {
            Some(NFSProgram::NFSPROC3_SYMLINK)
        } else if c == 11 {
            Some(NFSProgram::NFSPROC3_MKNOD)
        } else if c == 12 {
            Some(NFSProgram::NFSPROC3_REMOVE)
        } else if c == 13 {
            Some(NFSProgram::NFSPROC3_RMDIR)
        } else if c == 14 {
            Some(NFSProgram::NFSPROC3_RENAME)
        } else if c == 15 {
            Some(NFSProgram::NFSPROC3_LINK)
        } else if c == 16 {
            Some(NFSProgram::NFSPROC3_READDIR)
        } else if c == 17 {
            Some(NFSProgram::NFSPROC3_READDIRPLUS)
        } else if c == 18 {
            Some(NFSProgram::NFSPROC3_FSSTAT)
        } else if c == 19 {
            Some(NFSProgram::NFSPROC3_FSINFO)
        } else if c == 20 {
            Some(NFSProgram::NFSPROC3_PATHCONF)
        } else if c == 21 {
            Some(NFSProgram::NFSPROC3_COMMIT)
        } else if c == 22 {
            Some(NFSProgram::INVALID)
        } else {
            None
        }
    }

    /// Every variant is found again from its number.
    pub proof fn lemma_code_roundtrip(self)
        ensures
            Self::from_code(self.code()) == Some(self),
    {
    }

    /// The number that stands for the variant on the wire.
    pub fn to_u32(self) -> (c: u32)
        ensures
            c == self.code(),
    {
        match self {
            NFSProgram::NFSPROC3_NULL => 0,
            NFSProgram::NFSPROC3_GETATTR => 1,
            NFSProgram::NFSPROC3_SETATTR => 2,
            NFSProgram::NFSPROC3_LOOKUP => 3,
            NFSProgram::NFSPROC3_ACCESS => 4,
            NFSProgram::NFSPROC3_READLINK => 5,
            NFSProgram::NFSPROC3_READ => 6,
            NFSProgram::NFSPROC3_WRITE => 7,
            NFSProgram::NFSPROC3_CREATE => 8,
            NFSProgram::NFSPROC3_MKDIR => 9,
            NFSProgram::NFSPROC3_SYMLINK => 10,
            NFSProgram::NFSPROC3_MKNOD => 11,
            NFSProgram::NFSPROC3_REMOVE => 12,
            NFSProgram::NFSPROC3_RMDIR => 13,
            NFSProgram::NFSPROC3_RENAME => 14,
            NFSProgram::NFSPROC3_LINK => 15,
            NFSProgram::NFSPROC3_READDIR => 16,
            NFSProgram::NFSPROC3_READDIRPLUS => 17,
            NFSProgram::NFSPROC3_FSSTAT => 18,
            NFSProgram::NFSPROC3_FSINFO => 19,
            NFSProgram::NFSPROC3_PATHCONF => 20,
            NFSProgram::NFSPROC3_COMMIT => 21,
            NFSProgram::INVALID => 22,
        }
    }

    /// The variant that a number stands for, if any.
    pub fn from_u32(c: u32) -> (r: Option<NFSProgram>)
        ensures
            r == Self::from_code(c),
    {
        if c == 0 {
            Some(NFSProgram::NFSPROC3_NULL)
        } else if c == 1 {
            Some(NFSProgram::NFSPROC3_GETATTR)
        } else if c == 2 {
            Some(NFSProgram::NFSPROC3_SETATTR)
        } else if c == 3 {
            Some(NFSProgram::NFSPROC3_LOOKUP)
        } else if c == 4 {
            Some(NFSProgram::NFSPROC3_ACCESS)
        } else if c == 5 {
            Some(NFSProgram::NFSPROC3_READLINK)
        } else if c == 6 {
            Some(NFSProgram::NFSPROC3_READ)
        } else if c == 7 {
            Some(NFSProgram::NFSPROC3_WRITE)
        } else if c == 8 {
            Some(NFSProgram::NFSPROC3_CREATE)
        } else if c == 9 {
            Some(NFSProgram::NFSPROC3_MKDIR)
        } else if c == 10 {
            Some(NFSProgram::NFSPROC3_SYMLINK)
        } else if c == 11 {
            Some(NFSProgram::NFSPROC3_MKNOD)
        } else if c == 12 {
            Some(NFSProgram::NFSPROC3_REMOVE)
        } else if c == 13 {
            Some(NFSProgram::NFSPROC3_RMDIR)
        } else if c == 14 {
            Some(NFSProgram::NFSPROC3_RENAME)
        } else if c == 15 {
            Some(NFSProgram::NFSPROC3_LINK)
        } else if c == 16 {
            Some(NFSProgram::NFSPROC3_READDIR)
        } else if c == 17 {
            Some(NFSProgram::NFSPROC3_READDIRPLUS)
        } else if c == 18 {
            Some(NFSProgram::NFSPROC3_FSSTAT)
        } else if c == 19 {
            Some(NFSProgram::NFSPROC3_FSINFO)
        } else if c == 20 {
            Some(NFSProgram::NFSPROC3_PATHCONF)
        } else if c == 21 {
            Some(NFSProgram::NFSPROC3_COMMIT)
        } else if c == 22 {
            Some(NFSProgram::INVALID)
        } else {
            None
        }
    }
}

/// The status of an NFS procedure.
#[derive(Copy, Clone, Debug, PartialEq, Eq, Structural)]
pub enum nfsstat3 {
    NFS3_OK,
    NFS3ERR_PERM,
    NFS3ERR_NOENT,
    NFS3ERR_IO,
    NFS3ERR_NXIO,
    NFS3ERR_ACCES,
    NFS3ERR_EXIST,
    NFS3ERR_XDEV,
    NFS3ERR_NODEV,
    NFS3ERR_NOTDIR,
    NFS3ERR_ISDIR,
    NFS3ERR_INVAL,
    NFS3ERR_FBIG,
    NFS3ERR_NOSPC,
    NFS3ERR_ROFS,
    NFS3ERR_MLINK,
    NFS3ERR_NAMETOOLONG,
    NFS3ERR_NOTEMPTY,
    NFS3ERR_DQUOT,
    NFS3ERR_STALE,
    NFS3ERR_REMOTE,
    NFS3ERR_BADHANDLE,
    NFS3ERR_NOT_SYNC,
    NFS3ERR_BAD_COOKIE,
    NFS3ERR_NOTSUPP,
    NFS3ERR_TOOSMALL,
    NFS3ERR_SERVERFAULT,
    NFS3ERR_BADTYPE,
    NFS3ERR_JUKEBOX,
}

impl nfsstat3 {
    /// The number that stands for the variant on the wire.
    pub open spec fn code(self) -> u32 {
        match self {
            nfsstat3::NFS3_OK => 0,
            nfsstat3::NFS3ERR_PERM => 1,
            nfsstat3::NFS3ERR_NOENT => 2,
            nfsstat3::NFS3ERR_IO => 5,
            nfsstat3::NFS3ERR_NXIO => 6,
            nfsstat3::NFS3ERR_ACCES => 13,
            nfsstat3::NFS3ERR_EXIST => 17,
            nfsstat3::NFS3ERR_XDEV => 18,
            nfsstat3::NFS3ERR_NODEV => 19,
            nfsstat3::NFS3ERR_NOTDIR => 20,
            nfsstat3::NFS3ERR_ISDIR => 21,
            nfsstat3::NFS3ERR_INVAL => 22,
            nfsstat3::NFS3ERR_FBIG => 27,
            nfsstat3::NFS3ERR_NOSPC => 28,
            nfsstat3::NFS3ERR_ROFS => 30,
            nfsstat3::NFS3ERR_MLINK => 31,
            nfsstat3::NFS3ERR_NAMETOOLONG => 63,
            nfsstat3::NFS3ERR_NOTEMPTY => 66,
            nfsstat3::NFS3ERR_DQUOT => 69,
            nfsstat3::NFS3ERR_STALE => 70,
            nfsstat3::NFS3ERR_REMOTE => 71,
            nfsstat3::NFS3ERR_BADHANDLE => 10001,
            nfsstat3::NFS3ERR_NOT_SYNC => 10002,
            nfsstat3::NFS3ERR_BAD_COOKIE => 10003,
            nfsstat3::NFS3ERR_NOTSUPP => 10004,
            nfsstat3::NFS3ERR_TOOSMALL => 10005,
            nfsstat3::NFS3ERR_SERVERFAULT => 10006,
            nfsstat3::NFS3ERR_BADTYPE => 10007,
            nfsstat3::NFS3ERR_JUKEBOX => 10008,
        }
    }

    /// The variant that a number stands for, if any.
    pub open spec fn from_code(c: u32) -> Option<nfsstat3> {
        if c == 0 {
            Some(nfsstat3::NFS3_OK)
        } else if c == 1 {
            Some(nfsstat3::NFS3ERR_PERM)
        } else if c == 2 {
            Some(nfsstat3::NFS3ERR_NOENT)
        } else if c == 5 {
            Some(nfsstat3::NFS3ERR_IO)
        } else if c == 6 {
            Some(nfsstat3::NFS3ERR_NXIO)
        } else if c == 13 {
            Some(nfsstat3::NFS3ERR_ACCES)
        } else if c == 17 {
            Some(nfsstat3::NFS3ERR_EXIST)
        } else if c == 18 {
            Some(nfsstat3::NFS3ERR_XDEV)
        } else if c == 19 {
            Some(nfsstat3::NFS3ERR_NODEV)
        } else if c == 20 {
            Some(nfsstat3::NFS3ERR_NOTDIR)
        } else if c == 21 {
            Some(nfsstat3::NFS3ERR_ISDIR)
        } else if c == 22 {
            Some(nfsstat3::NFS3ERR_INVAL)
        } else if c == 27 {
            Some(nfsstat3::NFS3ERR_FBIG)
        } else if c == 28 {
            Some(nfsstat3::NFS3ERR_NOSPC)
        } else if c == 30 {
            Some(nfsstat3::NFS3ERR_ROFS)
        } else if c == 31 {
            Some(nfsstat3::NFS3ERR_MLINK)
        } else if c == 63 {
            Some(nfsstat3::NFS3ERR_NAMETOOLONG)
        } else if c == 66 {
            Some(nfsstat3::NFS3ERR_NOTEMPTY)
        } else if c == 69 {
            Some(nfsstat3::NFS3ERR_DQUOT)
        } else if c == 70 {
            Some(nfsstat3::NFS3ERR_STALE)
        } else if c == 71 {
            Some(nfsstat3::NFS3ERR_REMOTE)
        } else if c == 10001 {
            Some(nfsstat3::NFS3ERR_BADHANDLE)
        } else if c == 10002 {
            Some(nfsstat3::NFS3ERR_NOT_SYNC)
        } else if c == 10003 {
            Some(nfsstat3::NFS3ERR_BAD_COOKIE)
        } else if c == 10004 {
            Some(nfsstat3::NFS3ERR_NOTSUPP)
        } else if c == 10005 {
            Some(nfsstat3::NFS3ERR_TOOSMALL)
        } else if c == 10006 {
            Some(nfsstat3::NFS3ERR_SERVERFAULT)
        } else if c == 10007 {
            Some(nfsstat3::NFS3ERR_BADTYPE)
        } else if c == 10008 {
            Some(nfsstat3::NFS3ERR_JUKEBOX)
        } else {
            None
        }
    }

    /// Every variant is found again from its number.
    pub proof fn lemma_code_roundtrip(self)
        ensures
            Self::from_code(self.code()) == Some(self),
    {
    }

    /// The number that stands for the variant on the wire.
    pub fn to_u32(self) -> (c: u32)
        ensures
            c == self.code(),
    {
        match self {
            nfsstat3::NFS3_OK => 0,
            nfsstat3::NFS3ERR_PERM => 1,
            nfsstat3::NFS3ERR_NOENT => 2,
            nfsstat3::NFS3ERR_IO => 5,
            nfsstat3::NFS3ERR_NXIO => 6,
            nfsstat3::NFS3ERR_ACCES => 13,
            nfsstat3::NFS3ERR_EXIST => 17,
            nfsstat3::NFS3ERR_XDEV => 18,
            nfsstat3::NFS3ERR_NODEV => 19,
            nfsstat3::NFS3ERR_NOTDIR => 20,
            nfsstat3::NFS3ERR_ISDIR => 21,
            nfsstat3::NFS3ERR_INVAL => 22,
            nfsstat3::NFS3ERR_FBIG => 27,
            nfsstat3::NFS3ERR_NOSPC => 28,
            nfsstat3::NFS3ERR_ROFS => 30,
            nfsstat3::NFS3ERR_MLINK => 31,
            nfsstat3::NFS3ERR_NAMETOOLONG => 63,
            nfsstat3::NFS3ERR_NOTEMPTY => 66,
            nfsstat3::NFS3ERR_DQUOT => 69,
            nfsstat3::NFS3ERR_STALE => 70,
            nfsstat3::NFS3ERR_REMOTE => 71,
            nfsstat3::NFS3ERR_BADHANDLE => 10001,
            nfsstat3::NFS3ERR_NOT_SYNC => 10002,
            nfsstat3::NFS3ERR_BAD_COOKIE => 10003,
            nfsstat3::NFS3ERR_NOTSUPP => 10004,
            nfsstat3::NFS3ERR_TOOSMALL => 10005,
            nfsstat3::NFS3ERR_SERVERFAULT => 10006,
            nfsstat3::NFS3ERR_BADTYPE => 10007,
            nfsstat3::NFS3ERR_JUKEBOX => 10008,
        }
    }

    /// The variant that a number stands for, if any.
    pub fn from_u32(c: u32) -> (r: Option<nfsstat3>)
        ensures
            r == Self::from_code(c),
    {
        if c == 0 {
            Some(nfsstat3::NFS3_OK)
        } else if c == 1 {
            Some(nfsstat3::NFS3ERR_PERM)
        } else if c == 2 {
            Some(nfsstat3::NFS3ERR_NOENT)
        } else if c == 5 {
            Some(nfsstat3::NFS3ERR_IO)
        } else if c == 6 {
            Some(nfsstat3::NFS3ERR_NXIO)
        } else if c == 13 {
            Some(nfsstat3::NFS3ERR_ACCES)
        } else if c == 17 {
            Some(nfsstat3::NFS3ERR_EXIST)
        } else if c == 18 {
            Some(nfsstat3::NFS3ERR_XDEV)
        } else if c == 19 {
            Some(nfsstat3::NFS3ERR_NODEV)
        } else if c == 20 {
            Some(nfsstat3::NFS3ERR_NOTDIR)
        } else if c == 21 {
            Some(nfsstat3::NFS3ERR_ISDIR)
        } else if c == 22 {
            Some(nfsstat3::NFS3ERR_INVAL)
        } else if c == 27 {
            Some(nfsstat3::NFS3ERR_FBIG)
        } else if c == 28 {
            Some(nfsstat3::NFS3ERR_NOSPC)
        } else if c == 30 {
            Some(nfsstat3::NFS3ERR_ROFS)
        } else if c == 31 {
            Some(nfsstat3::NFS3ERR_MLINK)
        } else if c == 63 {
            Some(nfsstat3::NFS3ERR_NAMETOOLONG)
        } else if c == 66 {
            Some(nfsstat3::NFS3ERR_NOTEMPTY)
        } else if c == 69 {
            Some(nfsstat3::NFS3ERR_DQUOT)
        } else if c == 70 {
            Some(nfsstat3::NFS3ERR_STALE)
        } else if c == 71 {
            Some(nfsstat3::NFS3ERR_REMOTE)
        } else if c == 10001 {
            Some(nfsstat3::NFS3ERR_BADHANDLE)
        } else if c == 10002 {
            Some(nfsstat3::NFS3ERR_NOT_SYNC)
        } else if c == 10003 {
            Some(nfsstat3::NFS3ERR_BAD_COOKIE)
        } else if c == 10004 {
            Some(nfsstat3::NFS3ERR_NOTSUPP)
        } else if c == 10005 {
            Some(nfsstat3::NFS3ERR_TOOSMALL)
        } else if c == 10006 {
            Some(nfsstat3::NFS3ERR_SERVERFAULT)
        } else if c == 10007 {
            Some(nfsstat3::NFS3ERR_BADTYPE)
        } else if c == 10008 {
            Some(nfsstat3::NFS3ERR_JUKEBOX)
        } else {
            None
        }
    }

    /// The number of the variant, as 32 bits.
    pub open spec fn wire(v: nfsstat3) -> Seq<u8> {
        u32_wire(v.code())
    }

    /// A number that names no variant does not decode.
    pub open spec fn parse(s: Seq<u8>, at: int) -> Option<(nfsstat3, int)> {
        match parse_u32(s, at) {
            None => None,
            Some((c, end)) => match Self::from_code(c) {
                None => None,
                Some(v) => Some((v, end)),
            },
        }
    }

    /// Round trip: wherever the encoding of `v` stands in a buffer, the
    /// decoder reads `v` there and stops right behind it.
    pub proof fn lemma_roundtrip(v: nfsstat3, s: Seq<u8>, at: int)
        requires
            holds_at(s, at, Self::wire(v)),
        ensures
            Self::parse(s, at) == Some((v, at + Self::wire(v).len())),
    {
        lemma_roundtrip_u32(v.code(), s, at);
    }

    /// Appends the encoding of the value to `out`.
    pub fn serialize(&self, out: &mut Vec<u8>)
        ensures
            final(out)@ == old(out)@ + Self::wire(*self),
    {
        encode_u32(self.to_u32(), out);
    }

    /// Decodes a value at the offset `at` of `input`, and returns it with the
    /// offset behind it.
    pub fn deserialize(input: &[u8], at: usize) -> (r: Result<(nfsstat3, usize), DecodeError>)
        ensures
            match Self::parse(input@, at as int) {
                Some((v, end)) => r matches Ok(p) && p.0 == v && p.1 == end && end <= input@.len(),
                None => r is Err,
            },
    {
        let (c, end) = decode_u32(input, at)?;
        match Self::from_u32(c) {
            Some(v) => Ok((v, end)),
            None => Err(DecodeError {  }),
        }
    }
}

impl Default for nfsstat3 {
    fn default() -> (r: Self)
        ensures
            r == nfsstat3::NFS3_OK,
    {
        nfsstat3::NFS3_OK
    }
}

/// The type of a file.
#[derive(Copy, Clone, Debug, PartialEq, Eq, Structural)]
pub enum ftype3 {
    NF3REG,
    NF3DIR,
    NF3BLK,
    NF3CHR,
    NF3LNK,
    NF3SOCK,
    NF3FIFO,
}

impl ftype3 {
    /// The number that stands for the variant on the wire.
    pub open spec fn code(self) -> u32 {
        match self {
            ftype3::NF3REG => 1,
            ftype3::NF3DIR => 2,
            ftype3::NF3BLK => 3,
            ftype3::NF3CHR => 4,
            ftype3::NF3LNK => 5,
            ftype3::NF3SOCK => 6,
            ftype3::NF3FIFO => 7,
        }
    }

    /// The variant that a number stands for, if any.
    pub open spec fn from_code(c: u32) -> Option<ftype3> {
        if c == 1 {
            Some(ftype3::NF3REG)
        } else if c == 2 {
            Some(ftype3::NF3DIR)
        } else if c == 3 {
            Some(ftype3::NF3BLK)
        } else if c == 4 {
            Some(ftype3::NF3CHR)
        } else if c == 5 {
            Some(ftype3::NF3LNK)
        } else if c == 6 {
            Some(ftype3::NF3SOCK)
        } else if c == 7 {
            Some(ftype3::NF3FIFO)
        } else {
            None
        }
    }

    /// Every variant is found again from its number.
    pub proof fn lemma_code_roundtrip(self)
        ensures
            Self::from_code(self.code()) == Some(self),
    {
    }

    /// The number that stands for the variant on the wire.
    pub fn to_u32(self) -> (c: u32)
        ensures
            c == self.code(),
    {
        match self {
            ftype3::NF3REG => 1,
            ftype3::NF3DIR => 2,
            ftype3::NF3BLK => 3,
            ftype3::NF3CHR => 4,
            ftype3::NF3LNK => 5,
            ftype3::NF3SOCK => 6,
            ftype3::NF3FIFO => 7,
        }
    }

    /// The variant that a number stands for, if any.
    pub fn from_u32(c: u32) -> (r: Option<ftype3>)
        ensures
            r == Self::from_code(c),
    {
        if c == 1 {
            Some(ftype3::NF3REG)
        } else if c == 2 {
            Some(ftype3::NF3DIR)
        } else if c == 3 {
            Some(ftype3::NF3BLK)
        } else if c == 4 {
            Some(ftype3::NF3CHR)
        } else if c == 5 {
            Some(ftype3::NF3LNK)
        } else if c == 6 {
            Some(ftype3::NF3SOCK)
        } else if c == 7 {
            Some(ftype3::NF3FIFO)
        } else {
            None
        }
    }

    /// The number of the variant, as 32 bits.
    pub open spec fn wire(v: ftype3) -> Seq<u8> {
        u32_wire(v.code())
    }

    /// A number that names no variant does not decode.
    pub open spec fn parse(s: Seq<u8>, at: int) -> Option<(ftype3, int)> {
        match parse_u32(s, at) {
            None => None,
            Some((c, end)) => match Self::from_code(c) {
                None => None,
                Some(v) => Some((v, end)),
            },
        }
    }

    /// Round trip: wherever the encoding of `v` stands in a buffer, the
    /// decoder reads `v` there and stops right behind it.
    pub proof fn lemma_roundtrip(v: ftype3, s: Seq<u8>, at: int)
        requires
            holds_at(s, at, Self::wire(v)),
        ensures
            Self::parse(s, at) == Some((v, at + Self::wire(v).len())),
    {
        lemma_roundtrip_u32(v.code(), s, at);
    }

    /// Appends the encoding of the value to `out`.
    pub fn serialize(&self, out: &mut Vec<u8>)
        ensures
            final(out)@ == old(out)@ + Self::wire(*self),
    {
        encode_u32(self.to_u32(), out);
    }

    /// Decodes a value at the offset `at` of `input`, and returns it with the
    /// offset behind it.
    pub fn deserialize(input: &[u8], at: usize) -> (r: Result<(ftype3, usize), DecodeError>)
        ensures
            match Self::parse(input@, at as int) {
                Some((v, end)) => r matches Ok(p) && p.0 == v && p.1 == end && end <= input@.len(),
                None => r is Err,
            },
    {
        let (c, end) = decode_u32(input, at)?;
        match Self::from_u32(c) {
            Some(v) => Ok((v, end)),
            None => Err(DecodeError {  }),
        }
    }
}

impl Default for ftype3 {
    fn default() -> (r: Self)
        ensures
            r == ftype3::NF3REG,
    {
        ftype3::NF3REG
    }
}

/// A file name or a path: the bytes as they go over the wire, in no
/// particular character set.
#[derive(Clone, Debug, PartialEq, Eq)]
pub struct nfsstring(pub Vec<u8>);

impl View for nfsstring {
    type V = Seq<u8>;

    open spec fn view(&self) -> Seq<u8> {
        self.0@
    }
}

impl nfsstring {
    /// The length fits the 32 bits that the wire gives it.
    pub open spec fn encodable(v: Seq<u8>) -> bool {
        opaque_encodable(v)
    }

    /// The length, the bytes, and padding up to a multiple of four.
    pub open spec fn wire(v: Seq<u8>) -> Seq<u8> {
        opaque_wire(v)
    }

    /// What a decoder reads at the offset `at` of `s`, with the offset behind
    /// it.
    pub open spec fn parse(s: Seq<u8>, at: int) -> Option<(Seq<u8>, int)> {
        parse_opaque(s, at)
    }

    /// Round trip: wherever the encoding of `v` stands in a buffer, the
    /// decoder reads `v` there and stops right behind it.
    pub proof fn lemma_roundtrip(v: Seq<u8>, s: Seq<u8>, at: int)
        requires
            Self::encodable(v),
            holds_at(s, at, Self::wire(v)),
        ensures
            Self::parse(s, at) == Some((v, at + Self::wire(v).len())),
    {
        lemma_roundtrip_opaque(v, s, at);
    }

    /// Whether the value has an encoding.
    pub fn fits(&self) -> (b: bool)
        ensures
            b == Self::encodable(self@),
    {
        opaque_fits(self.0.as_slice())
    }

    /// Appends the encoding of the value to `out`.
    pub fn serialize(&self, out: &mut Vec<u8>)
        requires
            Self::encodable(self@),
        ensures
            final(out)@ == old(out)@ + Self::wire(self@),
    {
        encode_opaque(self.0.as_slice(), out);
    }

    /// Decodes a value at the offset `at` of `input`, and returns it with the
    /// offset behind it.
    pub fn deserialize(input: &[u8], at: usize) -> (r: Result<(nfsstring, usize), DecodeError>)
        ensures
            match Self::parse(input@, at as int) {
                Some((v, end)) => r matches Ok(p) && p.0@ == v && p.1 == end && end <= input@.len(),
                None => r is Err,
            },
    {
        let (data, at) = decode_opaque(input, at)?;
        Ok((nfsstring(data), at))
    }

    /// A copy of `bytes` as a name.
    pub fn from_bytes(bytes: &[u8]) -> (r: nfsstring)
        ensures
            r@ == bytes@,
    {
        let mut data: Vec<u8> = Vec::new();
        data.extend_from_slice(bytes);
        assert(data@ =~= bytes@);
        nfsstring(data)
    }

    /// The number of bytes in the name.
    pub fn len(&self) -> (n: usize)
        ensures
            n == self@.len(),
    {
        self.0.len()
    }

    /// A copy of the name.
    pub fn duplicate(&self) -> (r: nfsstring)
        ensures
            r@ == self@,
    {
        Self::from_bytes(self.0.as_slice())
    }
}

impl Default for nfsstring {
    fn default() -> (r: Self)
        ensures
            r@ == Seq::<u8>::empty(),
    {
        nfsstring(Vec::new())
    }
}

/// An opaque file handle: bytes that only the server explains.
#[derive(Clone, Debug, PartialEq, Eq)]
pub struct nfs_fh3 {
    pub data: Vec<u8>,
}

impl View for nfs_fh3 {
    type V = Seq<u8>;

    open spec fn view(&self) -> Seq<u8> {
        self.data@
    }
}

impl nfs_fh3 {
    /// The length fits the 32 bits that the wire gives it.
    pub open spec fn encodable(v: Seq<u8>) -> bool {
        opaque_encodable(v)
    }

    /// The length, the bytes, and padding up to a multiple of four.
    pub open spec fn wire(v: Seq<u8>) -> Seq<u8> {
        opaque_wire(v)
    }

    /// What a decoder reads at the offset `at` of `s`, with the offset behind
    /// it.
    pub open spec fn parse(s: Seq<u8>, at: int) -> Option<(Seq<u8>, int)> {
        parse_opaque(s, at)
    }

    /// Round trip: wherever the encoding of `v` stands in a buffer, the
    /// decoder reads `v` there and stops right behind it.
    pub proof fn lemma_roundtrip(v: Seq<u8>, s: Seq<u8>, at: int)
        requires
            Self::encodable(v),
            holds_at(s, at, Self::wire(v)),
        ensures
            Self::parse(s, at) == Some((v, at + Self::wire(v).len())),
    {
        lemma_roundtrip_opaque(v, s, at);
    }

    /// Whether the value has an encoding.
    pub fn fits(&self) -> (b: bool)
        ensures
            b == Self::encodable(self@),
    {
        opaque_fits(self.data.as_slice())
    }

    /// Appends the encoding of the value to `out`.
    pub fn serialize(&self, out: &mut Vec<u8>)
        requires
            Self::encodable(self@),
        ensures
            final(out)@ == old(out)@ + Self::wire(self@),
    {
        encode_opaque(self.data.as_slice(), out);
    }

    /// Decodes a value at the offset `at` of `input`, and returns it with the
    /// offset behind it.
    pub fn deserialize(input: &[u8], at: usize) -> (r: Result<(nfs_fh3, usize), DecodeError>)
        ensures
            match Self::parse(input@, at as int) {
                Some((v, end)) => r matches Ok(p) && p.0@ == v && p.1 == end && end <= input@.len(),
                None => r is Err,
            },
    {
        let (data, at) = decode_opaque(input, at)?;
        Ok((nfs_fh3 { data }, at))
    }
}

impl Default for nfs_fh3 {
    fn default() -> (r: Self)
        ensures
            r@ == Seq::<u8>::empty(),
    {
        nfs_fh3 { data: Vec::new() }
    }
}

/// The major and minor number of a device.
#[derive(Copy, Clone, Debug, PartialEq, Eq)]
pub struct specdata3 {
    pub specdata1: u32,
    pub specdata2: u32,
}

impl specdata3 {
    /// The fields one behind the other, in the order of their declaration.
    #[verifier::opaque]
    pub open spec fn wire(v: specdata3) -> Seq<u8> {
        u32_wire(v.specdata1) + u32_wire(v.specdata2)
    }

    /// What a decoder reads at the offset `at` of `s`, with the offset behind
    /// it; `None` where a field does not decode.
    #[verifier::opaque]
    pub open spec fn parse(s: Seq<u8>, at: int) -> Option<(specdata3, int)> {
        match parse_u32(s, at) {
            None => None,
            Some((specdata1, a1)) => match parse_u32(s, a1) {
                None => None,
                Some((specdata2, a2)) => Some((specdata3 { specdata1, specdata2 }, a2)),
            },
        }
    }

    /// Round trip: wherever the encoding of `v` stands in a buffer, the
    /// decoder reads `v` there and stops right behind it.
    pub proof fn lemma_roundtrip(v: specdata3, s: Seq<u8>, at: int)
        requires
            holds_at(s, at, Self::wire(v)),
        ensures
            Self::parse(s, at) == Some((v, at + Self::wire(v).len())),
    {
        reveal(specdata3::wire);
        reveal(specdata3::parse);
        let w0 = u32_wire(v.specdata1);
        let w1 = u32_wire(v.specdata2);
        lemma_holds_at_concat(s, at, w0, w1);
        lemma_roundtrip_u32(v.specdata1, s, at);
        lemma_roundtrip_u32(v.specdata2, s, at + w0.len());
    }

    /// Appends the encoding of the value to `out`.
    pub fn serialize(&self, out: &mut Vec<u8>)
        ensures
            final(out)@ == old(out)@ + Self::wire(*self),
    {
        proof {
            reveal(specdata3::wire);
        }
        let ghost base = out@;
        encode_u32(self.specdata1, out);
        encode_u32(self.specdata2, out);
        proof {
            lemma_concat_assoc(base, u32_wire(self.specdata1), u32_wire(self.specdata2));
        }
    }

    /// Decodes a value at the offset `at` of `input`, and returns it with the
    /// offset behind it.
    pub fn deserialize(input: &[u8], at: usize) -> (r: Result<(specdata3, usize), DecodeError>)
        ensures
            match Self::parse(input@, at as int) {
                Some((v, end)) => r matches Ok(p) && p.0 == v && p.1 == end && end <= input@.len(),
                None => r is Err,
            },
    {
        proof {
            reveal(specdata3::parse);
        }
        let (specdata1, at) = decode_u32(input, at)?;
        let (specdata2, at) = decode_u32(input, at)?;
        Ok((specdata3 { specdata1, specdata2 }, at))
    }
}

impl specdata3 {
    /// The value with every number zero, every list empty and every choice
    /// at its first arm.
    pub open spec fn zero() -> specdata3 {
        specdata3 {
            specdata1: 0,
            specdata2: 0,
        }
    }
}

impl Default for specdata3 {
    fn default() -> (r: Self)
        ensures
            r == Self::zero(),
    {
        specdata3 {
            specdata1: 0,
            specdata2: 0,
        }
    }
}

/// A time: seconds and nanoseconds since the epoch.
#[derive(Copy, Clone, Debug, PartialEq, Eq)]
pub struct nfstime3 {
    pub seconds: u32,
    pub nseconds: u32,
}

impl nfstime3 {
    /// The fields one behind the other, in the order of their declaration.
    #[verifier::opaque]
    pub open spec fn wire(v: nfstime3) -> Seq<u8> {
        u32_wire(v.seconds) + u32_wire(v.nseconds)
    }

    /// What a decoder reads at the offset `at` of `s`, with the offset behind
    /// it; `None` where a field does not decode.
    #[verifier::opaque]
    pub open spec fn parse(s: Seq<u8>, at: int) -> Option<(nfstime3, int)> {
        match parse_u32(s, at) {
            None => None,
            Some((seconds, a1)) => match parse_u32(s, a1) {
                None => None,
                Some((nseconds, a2)) => Some((nfstime3 { seconds, nseconds }, a2)),
            },
        }
    }

    /// Round trip: wherever the encoding of `v` stands in a buffer, the
    /// decoder reads `v` there and stops right behind it.
    pub proof fn lemma_roundtrip(v: nfstime3, s: Seq<u8>, at: int)
        requires
            holds_at(s, at, Self::wire(v)),
        ensures
            Self::parse(s, at) == Some((v, at + Self::wire(v).len())),
    {
        reveal(nfstime3::wire);
        reveal(nfstime3::parse);
        let w0 = u32_wire(v.seconds);
        let w1 = u32_wire(v.nseconds);
        lemma_holds_at_concat(s, at, w0, w1);
        lemma_roundtrip_u32(v.seconds, s, at);
        lemma_roundtrip_u32(v.nseconds, s, at + w0.len());
    }

    /// Appends the encoding of the value to `out`.
    pub fn serialize(&self, out: &mut Vec<u8>)
        ensures
            final(out)@ == old(out)@ + Self::wire(*self),
    {
        proof {
            reveal(nfstime3::wire);
        }
        let ghost base = out@;
        encode_u32(self.seconds, out);
        encode_u32(self.nseconds, out);
        proof {
            lemma_concat_assoc(base, u32_wire(self.seconds), u32_wire(self.nseconds));
        }
    }

    /// Decodes a value at the offset `at` of `input`, and returns it with the
    /// offset behind it.
    pub fn deserialize(input: &[u8], at: usize) -> (r: Result<(nfstime3, usize), DecodeError>)
        ensures
            match Self::parse(input@, at as int) {
                Some((v, end)) => r matches Ok(p) && p.0 == v && p.1 == end && end <= input@.len(),
                None => r is Err,
            },
    {
        proof {
            reveal(nfstime3::parse);
        }
        let (seconds, at) = decode_u32(input, at)?;
        let (nseconds, at) = decode_u32(input, at)?;
        Ok((nfstime3 { seconds, nseconds }, at))
    }
}

impl nfstime3 {
    /// The value with every number zero, every list empty and every choice
    /// at its first arm.
    pub open spec fn zero() -> nfstime3 {
        nfstime3 {
            seconds: 0,
            nseconds: 0,
        }
    }
}

impl Default for nfstime3 {
    fn default() -> (r: Self)
        ensures
            r == Self::zero(),
    {
        nfstime3 {
            seconds: 0,
            nseconds: 0,
        }
    }
}

/// The attributes of a file.
#[derive(Copy, Clone, Debug, PartialEq, Eq)]
pub struct fattr3 {
    pub ftype: ftype3,
    pub mode: mode3,
    pub nlink: u32,
    pub uid: uid3,
    pub gid: gid3,
    pub size: size3,
    pub used: size3,
    pub rdev: specdata3,
    pub fsid: u64,
    pub fileid: fileid3,
    pub atime: nfstime3,
    pub mtime: nfstime3,
    pub ctime: nfstime3,
}

impl fattr3 {
    /// The fields one behind the other, in the order of their declaration.
    #[verifier::opaque]
    pub open spec fn wire(v: fattr3) -> Seq<u8> {
        ftype3::wire(v.ftype) + u32_wire(v.mode) + u32_wire(v.nlink) + u32_wire(v.uid)
            + u32_wire(v.gid) + u64_wire(v.size) + u64_wire(v.used) + specdata3::wire(v.rdev)
            + u64_wire(v.fsid) + u64_wire(v.fileid) + nfstime3::wire(v.atime)
            + nfstime3::wire(v.mtime) + nfstime3::wire(v.ctime)
    }

    /// What a decoder reads at the offset `at` of `s`, with the offset behind
    /// it; `None` where a field does not decode.
    #[verifier::opaque]
    pub open spec fn parse(s: Seq<u8>, at: int) -> Option<(fattr3, int)> {
        match ftype3::parse(s, at) {
            None => None,
            Some((ftype, a1)) => match parse_u32(s, a1) {
                None => None,
                Some((mode, a2)) => match parse_u32(s, a2) {
                    None => None,
                    Some((nlink, a3)) => match parse_u32(s, a3) {
                        None => None,
                        Some((uid, a4)) => match parse_u32(s, a4) {
                            None => None,
                            Some((gid, a5)) => match parse_u64(s, a5) {
                                None => None,
                                Some((size, a6)) => match parse_u64(s, a6) {
                                    None => None,
                                    Some((used, a7)) => match specdata3::parse(s, a7) {
                                        None => None,
                                        Some((rdev, a8)) => match parse_u64(s, a8) {
                                            None => None,
                                            Some((fsid, a9)) => match parse_u64(s, a9) {
                                                None => None,
                                                Some((fileid, a10)) => match nfstime3::parse(s, a10) {
                                                    None => None,
                                                    Some((atime, a11)) => match nfstime3::parse(s, a11) {
                                                        None => None,
                                                        Some((mtime, a12)) => match nfstime3::parse(s, a12) {
                                                            None => None,
                                                            Some((ctime, a13)) => Some(
                                                                (
                                                                    fattr3 {
                                                                        ftype,
                                                                        mode,
                                                                        nlink,
                                                                        uid,
                                                                        gid,
                                                                        size,
                                                                        used,
                                                                        rdev,
                                                                        fsid,
                                                                        fileid,
                                                                        atime,
                                                                        mtime,
                                                                        ctime,
                                                                    },
                                                                    a13,
                                                                ),
                                                            ),
                                                        },
                                                    },
                                                },
                                            },
                                        },
                                    },
                                },
                            },
                        },
                    },
                },
            },
        }
    }

    /// Round trip: wherever the encoding of `v` stands in a buffer, the
    /// decoder reads `v` there and stops right behind it.
    pub proof fn lemma_roundtrip(v: fattr3, s: Seq<u8>, at: int)
        requires
            holds_at(s, at, Self::wire(v)),
        ensures
            Self::parse(s, at) == Some((v, at + Self::wire(v).len())),
    {
        reveal(fattr3::wire);
        reveal(fattr3::parse);
        let w0 = ftype3::wire(v.ftype);
        let w1 = u32_wire(v.mode);
        let w2 = u32_wire(v.nlink);
        let w3 = u32_wire(v.uid);
        let w4 = u32_wire(v.gid);
        let w5 = u64_wire(v.size);
        let w6 = u64_wire(v.used);
        let w7 = specdata3::wire(v.rdev);
        let w8 = u64_wire(v.fsid);
        let w9 = u64_wire(v.fileid);
        let w10 = nfstime3::wire(v.atime);
        let w11 = nfstime3::wire(v.mtime);
        let w12 = nfstime3::wire(v.ctime);
        let p1 = w0 + w1;
        let p2 = p1 + w2;
        let p3 = p2 + w3;
        let p4 = p3 + w4;
        let p5 = p4 + w5;
        let p6 = p5 + w6;
        let p7 = p6 + w7;
        let p8 = p7 + w8;
        let p9 = p8 + w9;
        let p10 = p9 + w10;
        let p11 = p10 + w11;
        lemma_holds_at_concat(s, at, p11, w12);
        lemma_holds_at_concat(s, at, p10, w11);
        lemma_holds_at_concat(s, at, p9, w10);
        lemma_holds_at_concat(s, at, p8, w9);
        lemma_holds_at_concat(s, at, p7, w8);
        lemma_holds_at_concat(s, at, p6, w7);
        lemma_holds_at_concat(s, at, p5, w6);
        lemma_holds_at_concat(s, at, p4, w5);
        lemma_holds_at_concat(s, at, p3, w4);
        lemma_holds_at_concat(s, at, p2, w3);
        lemma_holds_at_concat(s, at, p1, w2);
        lemma_holds_at_concat(s, at, w0, w1);
        ftype3::lemma_roundtrip(v.ftype, s, at);
        lemma_roundtrip_u32(v.mode, s, at + w0.len());
        lemma_roundtrip_u32(v.nlink, s, at + p1.len());
        lemma_roundtrip_u32(v.uid, s, at + p2.len());
        lemma_roundtrip_u32(v.gid, s, at + p3.len());
        lemma_roundtrip_u64(v.size, s, at + p4.len());
        lemma_roundtrip_u64(v.used, s, at + p5.len());
        specdata3::lemma_roundtrip(v.rdev, s, at + p6.len());
        lemma_roundtrip_u64(v.fsid, s, at + p7.len());
        lemma_roundtrip_u64(v.fileid, s, at + p8.len());
        nfstime3::lemma_roundtrip(v.atime, s, at + p9.len());
        nfstime3::lemma_roundtrip(v.mtime, s, at + p10.len());
        nfstime3::lemma_roundtrip(v.ctime, s, at + p11.len());
    }

    /// Appends the encoding of the value to `out`.
    pub fn serialize(&self, out: &mut Vec<u8>)
        ensures
            final(out)@ == old(out)@ + Self::wire(*self),
    {
        proof {
            reveal(fattr3::wire);
        }
        let ghost base = out@;
        self.ftype.serialize(out);
        encode_u32(self.mode, out);
        proof {
            lemma_concat_assoc(base, ftype3::wire(self.ftype), u32_wire(self.mode));
        }
        encode_u32(self.nlink, out);
        proof {
            lemma_concat_assoc(
                base,
                ftype3::wire(self.ftype) + u32_wire(self.mode),
                u32_wire(self.nlink),
            );
        }
        encode_u32(self.uid, out);
        proof {
            lemma_concat_assoc(
                base,
                ftype3::wire(self.ftype) + u32_wire(self.mode) + u32_wire(self.nlink),
                u32_wire(self.uid),
            );
        }
        encode_u32(self.gid, out);
        proof {
            lemma_concat_assoc(
                base,
                ftype3::wire(self.ftype) + u32_wire(self.mode) + u32_wire(self.nlink)
                    + u32_wire(self.uid),
                u32_wire(self.gid),
            );
        }
        encode_u64(self.size, out);
        proof {
            lemma_concat_assoc(
                base,
                ftype3::wire(self.ftype) + u32_wire(self.mode) + u32_wire(self.nlink)
                    + u32_wire(self.uid) + u32_wire(self.gid),
                u64_wire(self.size),
            );
        }
        encode_u64(self.used, out);
        proof {
            lemma_concat_assoc(
                base,
                ftype3::wire(self.ftype) + u32_wire(self.mode) + u32_wire(self.nlink)
                    + u32_wire(self.uid) + u32_wire(self.gid) + u64_wire(self.size),
                u64_wire(self.used),
            );
        }
        self.rdev.serialize(out);
        proof {
            lemma_concat_assoc(
                base,
                ftype3::wire(self.ftype) + u32_wire(self.mode) + u32_wire(self.nlink)
                    + u32_wire(self.uid) + u32_wire(self.gid) + u64_wire(self.size)
                    + u64_wire(self.used),
                specdata3::wire(self.rdev),
            );
        }
        encode_u64(self.fsid, out);
        proof {
            lemma_concat_assoc(
                base,
                ftype3::wire(self.ftype) + u32_wire(self.mode) + u32_wire(self.nlink)
                    + u32_wire(self.uid) + u32_wire(self.gid) + u64_wire(self.size)
                    + u64_wire(self.used) + specdata3::wire(self.rdev),
                u64_wire(self.fsid),
            );
        }
        encode_u64(self.fileid, out);
        proof {
            lemma_concat_assoc(
                base,
                ftype3::wire(self.ftype) + u32_wire(self.mode) + u32_wire(self.nlink)
                    + u32_wire(self.uid) + u32_wire(self.gid) + u64_wire(self.size)
                    + u64_wire(self.used) + specdata3::wire(self.rdev) + u64_wire(self.fsid),
                u64_wire(self.fileid),
            );
        }
        self.atime.serialize(out);
        proof {
            lemma_concat_assoc(
                base,
                ftype3::wire(self.ftype) + u32_wire(self.mode) + u32_wire(self.nlink)
                    + u32_wire(self.uid) + u32_wire(self.gid) + u64_wire(self.size)
                    + u64_wire(self.used) + specdata3::wire(self.rdev) + u64_wire(self.fsid)
                    + u64_wire(self.fileid),
                nfstime3::wire(self.atime),
            );
        }
        self.mtime.serialize(out);
        proof {
            lemma_concat_assoc(
                base,
                ftype3::wire(self.ftype) + u32_wire(self.mode) + u32_wire(self.nlink)
                    + u32_wire(self.uid) + u32_wire(self.gid) + u64_wire(self.size)
                    + u64_wire(self.used) + specdata3::wire(self.rdev) + u64_wire(self.fsid)
                    + u64_wire(self.fileid) + nfstime3::wire(self.atime),
                nfstime3::wire(self.mtime),
            );
        }
        self.ctime.serialize(out);
        proof {
            lemma_concat_assoc(
                base,
                ftype3::wire(self.ftype) + u32_wire(self.mode) + u32_wire(self.nlink)
                    + u32_wire(self.uid) + u32_wire(self.gid) + u64_wire(self.size)
                    + u64_wire(self.used) + specdata3::wire(self.rdev) + u64_wire(self.fsid)
                    + u64_wire(self.fileid) + nfstime3::wire(self.atime)
                    + nfstime3::wire(self.mtime),
                nfstime3::wire(self.ctime),
            );
        }
    }

    /// Decodes a value at the offset `at` of `input`, and returns it with the
    /// offset behind it.
    pub fn deserialize(input: &[u8], at: usize) -> (r: Result<(fattr3, usize), DecodeError>)
        ensures
            match Self::parse(input@, at as int) {
                Some((v, end)) => r matches Ok(p) && p.0 == v && p.1 == end && end <= input@.len(),
                None => r is Err,
            },
    {
        proof {
            reveal(fattr3::parse);
        }
        let (ftype, at) = ftype3::deserialize(input, at)?;
        let (mode, at) = decode_u32(input, at)?;
        let (nlink, at) = decode_u32(input, at)?;
        let (uid, at) = decode_u32(input, at)?;
        let (gid, at) = decode_u32(input, at)?;
        let (size, at) = decode_u64(input, at)?;
        let (used, at) = decode_u64(input, at)?;
        let (rdev, at) = specdata3::deserialize(input, at)?;
        let (fsid, at) = decode_u64(input, at)?;
        let (fileid, at) = decode_u64(input, at)?;
        let (atime, at) = nfstime3::deserialize(input, at)?;
        let (mtime, at) = nfstime3::deserialize(input, at)?;
        let (ctime, at) = nfstime3::deserialize(input, at)?;
        Ok(
            (
                fattr3 {
                    ftype,
                    mode,
                    nlink,
                    uid,
                    gid,
                    size,
                    used,
                    rdev,
                    fsid,
                    fileid,
                    atime,
                    mtime,
                    ctime,
                },
                at,
            ),
        )
    }
}

impl fattr3 {
    /// The value with every number zero, every list empty and every choice
    /// at its first arm.
    pub open spec fn zero() -> fattr3 {
        fattr3 {
            ftype: ftype3::NF3REG,
            mode: 0,
            nlink: 0,
            uid: 0,
            gid: 0,
            size: 0,
            used: 0,
            rdev: specdata3::zero(),
            fsid: 0,
            fileid: 0,
            atime: nfstime3::zero(),
            mtime: nfstime3::zero(),
            ctime: nfstime3::zero(),
        }
    }
}

impl Default for fattr3 {
    fn default() -> (r: Self)
        ensures
            r == Self::zero(),
    {
        fattr3 {
            ftype: ftype3::default(),
            mode: 0,
            nlink: 0,
            uid: 0,
            gid: 0,
            size: 0,
            used: 0,
            rdev: specdata3::default(),
            fsid: 0,
            fileid: 0,
            atime: nfstime3::default(),
            mtime: nfstime3::default(),
            ctime: nfstime3::default(),
        }
    }
}

/// The attributes by which a client tells whether a file changed behind its
/// back.
#[derive(Copy, Clone, Debug, PartialEq, Eq)]
pub struct wcc_attr {
    pub size: size3,
    pub mtime: nfstime3,
    pub ctime: nfstime3,
}

impl wcc_attr {
    /// The fields one behind the other, in the order of their declaration.
    #[verifier::opaque]
    pub open spec fn wire(v: wcc_attr) -> Seq<u8> {
        u64_wire(v.size) + nfstime3::wire(v.mtime) + nfstime3::wire(v.ctime)
    }

    /// What a decoder reads at the offset `at` of `s`, with the offset behind
    /// it; `None` where a field does not decode.
    #[verifier::opaque]
    pub open spec fn parse(s: Seq<u8>, at: int) -> Option<(wcc_attr, int)> {
        match parse_u64(s, at) {
            None => None,
            Some((size, a1)) => match nfstime3::parse(s, a1) {
                None => None,
                Some((mtime, a2)) => match nfstime3::parse(s, a2) {
                    None => None,
                    Some((ctime, a3)) => Some((wcc_attr { size, mtime, ctime }, a3)),
                },
            },
        }
    }

    /// Round trip: wherever the encoding of `v` stands in a buffer, the
    /// decoder reads `v` there and stops right behind it.
    pub proof fn lemma_roundtrip(v: wcc_attr, s: Seq<u8>, at: int)
        requires
            holds_at(s, at, Self::wire(v)),
        ensures
            Self::parse(s, at) == Some((v, at + Self::wire(v).len())),
    {
        reveal(wcc_attr::wire);
        reveal(wcc_attr::parse);
        let w0 = u64_wire(v.size);
        let w1 = nfstime3::wire(v.mtime);
        let w2 = nfstime3::wire(v.ctime);
        let p1 = w0 + w1;
        lemma_holds_at_concat(s, at, p1, w2);
        lemma_holds_at_concat(s, at, w0, w1);
        lemma_roundtrip_u64(v.size, s, at);
        nfstime3::lemma_roundtrip(v.mtime, s, at + w0.len());
        nfstime3::lemma_roundtrip(v.ctime, s, at + p1.len());
    }

    /// Appends the encoding of the value to `out`.
    pub fn serialize(&self, out: &mut Vec<u8>)
        ensures
            final(out)@ == old(out)@ + Self::wire(*self),
    {
        proof {
            reveal(wcc_attr::wire);
        }
        let ghost base = out@;
        encode_u64(self.size, out);
        self.mtime.serialize(out);
        proof {
            lemma_concat_assoc(base, u64_wire(self.size), nfstime3::wire(self.mtime));
        }
        self.ctime.serialize(out);
        proof {
            lemma_concat_assoc(
                base,
                u64_wire(self.size) + nfstime3::wire(self.mtime),
                nfstime3::wire(self.ctime),
            );
        }
    }

    /// Decodes a value at the offset `at` of `input`, and returns it with the
    /// offset behind it.
    pub fn deserialize(input: &[u8], at: usize) -> (r: Result<(wcc_attr, usize), DecodeError>)
        ensures
            match Self::parse(input@, at as int) {
                Some((v, end)) => r matches Ok(p) && p.0 == v && p.1 == end && end <= input@.len(),
                None => r is Err,
            },
    {
        proof {
            reveal(wcc_attr::parse);
        }
        let (size, at) = decode_u64(input, at)?;
        let (mtime, at) = nfstime3::deserialize(input, at)?;
        let (ctime, at) = nfstime3::deserialize(input, at)?;
        Ok((wcc_attr { size, mtime, ctime }, at))
    }
}

impl wcc_attr {
    /// The value with every number zero, every list empty and every choice
    /// at its first arm.
    pub open spec fn zero() -> wcc_attr {
        wcc_attr {
            size: 0,
            mtime: nfstime3::zero(),
            ctime: nfstime3::zero(),
        }
    }
}

impl Default for wcc_attr {
    fn default() -> (r: Self)
        ensures
            r == Self::zero(),
    {
        wcc_attr {
            size: 0,
            mtime: nfstime3::default(),
            ctime: nfstime3::default(),
        }
    }
}

/// The attributes of an object before an operation, where they could be had.
#[derive(Copy, Clone, Debug, PartialEq, Eq)]
pub enum pre_op_attr {
    Void,
    attributes(wcc_attr),
}

impl pre_op_attr {
    /// The discriminant, then the contents of the arm.
    #[verifier::opaque]
    pub open spec fn wire(v: pre_op_attr) -> Seq<u8> {
        match v {
            pre_op_attr::Void => bool_wire(false),
            pre_op_attr::attributes(x) => bool_wire(true) + wcc_attr::wire(x),
        }
    }

    /// What a decoder reads at the offset `at` of `s`, with the offset behind
    /// it; `None` where the flag or the value does not decode.
    #[verifier::opaque]
    pub open spec fn parse(s: Seq<u8>, at: int) -> Option<(pre_op_attr, int)> {
        match parse_bool(s, at) {
            None => None,
            Some((present, a1)) => if present {
                match wcc_attr::parse(s, a1) {
                    None => None,
                    Some((x, end)) => Some((pre_op_attr::attributes(x), end)),
                }
            } else {
                Some((pre_op_attr::Void, a1))
            },
        }
    }

    /// Round trip: wherever the encoding of `v` stands in a buffer, the
    /// decoder reads `v` there and stops right behind it.
    pub proof fn lemma_roundtrip(v: pre_op_attr, s: Seq<u8>, at: int)
        requires
            holds_at(s, at, Self::wire(v)),
        ensures
            Self::parse(s, at) == Some((v, at + Self::wire(v).len())),
    {
        reveal(pre_op_attr::wire);
        reveal(pre_op_attr::parse);
        match v {
            pre_op_attr::Void => {
                lemma_roundtrip_bool(false, s, at);
            },
            pre_op_attr::attributes(x) => {
                lemma_holds_at_concat(s, at, bool_wire(true), wcc_attr::wire(x));
                lemma_roundtrip_bool(true, s, at);
                wcc_attr::lemma_roundtrip(x, s, at + 4);
            },
        }
    }

    /// Appends the encoding of the value to `out`.
    pub fn serialize(&self, out: &mut Vec<u8>)
        ensures
            final(out)@ == old(out)@ + Self::wire(*self),
    {
        proof {
            reveal(pre_op_attr::wire);
        }
        match self {
            pre_op_attr::Void => {
                encode_bool(false, out);
            },
            pre_op_attr::attributes(x) => {
                encode_bool(true, out);
                x.serialize(out);
                assert(out@ =~= old(out)@ + Self::wire(*self));
            },
        }
    }

    /// Decodes a value at the offset `at` of `input`, and returns it with the
    /// offset behind it.
    pub fn deserialize(input: &[u8], at: usize) -> (r: Result<(pre_op_attr, usize), DecodeError>)
        ensures
            match Self::parse(input@, at as int) {
                Some((v, end)) => r matches Ok(p) && p.0 == v && p.1 == end && end <= input@.len(),
                None => r is Err,
            },
    {
        proof {
            reveal(pre_op_attr::parse);
        }
        let (present, at) = decode_bool(input, at)?;
        if present {
            let (x, at) = wcc_attr::deserialize(input, at)?;
            Ok((pre_op_attr::attributes(x), at))
        } else {
            Ok((pre_op_attr::Void, at))
        }
    }
}

impl Default for pre_op_attr {
    fn default() -> (r: Self)
        ensures
            r == pre_op_attr::Void,
    {
        pre_op_attr::Void
    }
}

/// The attributes of an object after an operation, where they could be had.
#[derive(Copy, Clone, Debug, PartialEq, Eq)]
pub enum post_op_attr {
    Void,
    attributes(fattr3),
}

impl post_op_attr {
    /// The discriminant, then the contents of the arm.
    #[verifier::opaque]
    pub open spec fn wire(v: post_op_attr) -> Seq<u8> {
        match v {
            post_op_attr::Void => bool_wire(false),
            post_op_attr::attributes(x) => bool_wire(true) + fattr3::wire(x),
        }
    }

    /// What a decoder reads at the offset `at` of `s`, with the offset behind
    /// it; `None` where the flag or the value does not decode.
    #[verifier::opaque]
    pub open spec fn parse(s: Seq<u8>, at: int) -> Option<(post_op_attr, int)> {
        match parse_bool(s, at) {
            None => None,
            Some((present, a1)) => if present {
                match fattr3::parse(s, a1) {
                    None => None,
                    Some((x, end)) => Some((post_op_attr::attributes(x), end)),
                }
            } else {
                Some((post_op_attr::Void, a1))
            },
        }
    }

    /// Round trip: wherever the encoding of `v` stands in a buffer, the
    /// decoder reads `v` there and stops right behind it.
    pub proof fn lemma_roundtrip(v: post_op_attr, s: Seq<u8>, at: int)
        requires
            holds_at(s, at, Self::wire(v)),
        ensures
            Self::parse(s, at) == Some((v, at + Self::wire(v).len())),
    {
        reveal(post_op_attr::wire);
        reveal(post_op_attr::parse);
        match v {
            post_op_attr::Void => {
                lemma_roundtrip_bool(false, s, at);
            },
            post_op_attr::attributes(x) => {
                lemma_holds_at_concat(s, at, bool_wire(true), fattr3::wire(x));
                lemma_roundtrip_bool(true, s, at);
                fattr3::lemma_roundtrip(x, s, at + 4);
            },
        }
    }

    /// Appends the encoding of the value to `out`.
    pub fn serialize(&self, out: &mut Vec<u8>)
        ensures
            final(out)@ == old(out)@ + Self::wire(*self),
    {
        proof {
            reveal(post_op_attr::wire);
        }
        match self {
            post_op_attr::Void => {
                encode_bool(false, out);
            },
            post_op_attr::attributes(x) => {
                encode_bool(true, out);
                x.serialize(out);
                assert(out@ =~= old(out)@ + Self::wire(*self));
            },
        }
    }

    /// Decodes a value at the offset `at` of `input`, and returns it with the
    /// offset behind it.
    pub fn deserialize(input: &[u8], at: usize) -> (r: Result<(post_op_attr, usize), DecodeError>)
        ensures
            match Self::parse(input@, at as int) {
                Some((v, end)) => r matches Ok(p) && p.0 == v && p.1 == end && end <= input@.len(),
                None => r is Err,
            },
    {
        proof {
            reveal(post_op_attr::parse);
        }
        let (present, at) = decode_bool(input, at)?;
        if present {
            let (x, at) = fattr3::deserialize(input, at)?;
            Ok((post_op_attr::attributes(x), at))
        } else {
            Ok((post_op_attr::Void, at))
        }
    }
}

impl Default for post_op_attr {
    fn default() -> (r: Self)
        ensures
            r == post_op_attr::Void,
    {
        post_op_attr::Void
    }
}

/// The attributes of an object on both sides of an operation that changes it.
#[derive(Copy, Clone, Debug, PartialEq, Eq)]
pub struct wcc_data {
    pub before: pre_op_attr,
    pub after: post_op_attr,
}

impl wcc_data {
    /// The fields one behind the other, in the order of their declaration.
    #[verifier::opaque]
    pub open spec fn wire(v: wcc_data) -> Seq<u8> {
        pre_op_attr::wire(v.before) + post_op_attr::wire(v.after)
    }

    /// What a decoder reads at the offset `at` of `s`, with the offset behind
    /// it; `None` where a field does not decode.
    #[verifier::opaque]
    pub open spec fn parse(s: Seq<u8>, at: int) -> Option<(wcc_data, int)> {
        match pre_op_attr::parse(s, at) {
            None => None,
            Some((before, a1)) => match post_op_attr::parse(s, a1) {
                None => None,
                Some((after, a2)) => Some((wcc_data { before, after }, a2)),
            },
        }
    }

    /// Round trip: wherever the encoding of `v` stands in a buffer, the
    /// decoder reads `v` there and stops right behind it.
    pub proof fn lemma_roundtrip(v: wcc_data, s: Seq<u8>, at: int)
        requires
            holds_at(s, at, Self::wire(v)),
        ensures
            Self::parse(s, at) == Some((v, at + Self::wire(v).len())),
    {
        reveal(wcc_data::wire);
        reveal(wcc_data::parse);
        let w0 = pre_op_attr::wire(v.before);
        let w1 = post_op_attr::wire(v.after);
        lemma_holds_at_concat(s, at, w0, w1);
        pre_op_attr::lemma_roundtrip(v.before, s, at);
        post_op_attr::lemma_roundtrip(v.after, s, at + w0.len());
    }

    /// Appends the encoding of the value to `out`.
    pub fn serialize(&self, out: &mut Vec<u8>)
        ensures
            final(out)@ == old(out)@ + Self::wire(*self),
    {
        proof {
            reveal(wcc_data::wire);
        }
        let ghost base = out@;
        self.before.serialize(out);
        self.after.serialize(out);
        proof {
            lemma_concat_assoc(
                base,
                pre_op_attr::wire(self.before),
                post_op_attr::wire(self.after),
            );
        }
    }

    /// Decodes a value at the offset `at` of `input`, and returns it with the
    /// offset behind it.
    pub fn deserialize(input: &[u8], at: usize) -> (r: Result<(wcc_data, usize), DecodeError>)
        ensures
            match Self::parse(input@, at as int) {
                Some((v, end)) => r matches Ok(p) && p.0 == v && p.1 == end && end <= input@.len(),
                None => r is Err,
            },
    {
        proof {
            reveal(wcc_data::parse);
        }
        let (before, at) = pre_op_attr::deserialize(input, at)?;
        let (after, at) = post_op_attr::deserialize(input, at)?;
        Ok((wcc_data { before, after }, at))
    }
}

impl wcc_data {
    /// The value with every number zero, every list empty and every choice
    /// at its first arm.
    pub open spec fn zero() -> wcc_data {
        wcc_data {
            before: pre_op_attr::Void,
            after: post_op_attr::Void,
        }
    }
}

impl Default for wcc_data {
    fn default() -> (r: Self)
        ensures
            r == Self::zero(),
    {
        wcc_data {
            before: pre_op_attr::default(),
            after: post_op_attr::default(),
        }
    }
}

/// The handle of an object that an operation made, where it could be had.
#[derive(Clone, Debug, PartialEq, Eq)]
pub enum post_op_fh3 {
    Void,
    handle(nfs_fh3),
}

/// What a [`post_op_fh3`] holds, as plain values.
pub enum post_op_fh3View {
    Void,
    handle(Seq<u8>),
}

impl View for post_op_fh3 {
    type V = post_op_fh3View;

    open spec fn view(&self) -> post_op_fh3View {
        match *self {
            post_op_fh3::Void => post_op_fh3View::Void,
            post_op_fh3::handle(x) => post_op_fh3View::handle(x@),
        }
    }
}

impl post_op_fh3 {
    /// Every length in the value fits the 32 bits that the wire gives it.
    pub open spec fn encodable(v: post_op_fh3View) -> bool {
        match v {
            post_op_fh3View::Void => true,
            post_op_fh3View::handle(x) => nfs_fh3::encodable(x),
        }
    }

    /// The discriminant, then the contents of the arm.
    #[verifier::opaque]
    pub open spec fn wire(v: post_op_fh3View) -> Seq<u8> {
        match v {
            post_op_fh3View::Void => bool_wire(false),
            post_op_fh3View::handle(x) => bool_wire(true) + nfs_fh3::wire(x),
        }
    }

    /// What a decoder reads at the offset `at` of `s`, with the offset behind
    /// it; `None` where the flag or the value does not decode.
    #[verifier::opaque]
    pub open spec fn parse(s: Seq<u8>, at: int) -> Option<(post_op_fh3View, int)> {
        match parse_bool(s, at) {
            None => None,
            Some((present, a1)) => if present {
                match nfs_fh3::parse(s, a1) {
                    None => None,
                    Some((x, end)) => Some((post_op_fh3View::handle(x), end)),
                }
            } else {
                Some((post_op_fh3View::Void, a1))
            },
        }
    }

    /// Round trip: wherever the encoding of `v` stands in a buffer, the
    /// decoder reads `v` there and stops right behind it.
    pub proof fn lemma_roundtrip(v: post_op_fh3View, s: Seq<u8>, at: int)
        requires
            Self::encodable(v),
            holds_at(s, at, Self::wire(v)),
        ensures
            Self::parse(s, at) == Some((v, at + Self::wire(v).len())),
    {
        reveal(post_op_fh3::wire);
        reveal(post_op_fh3::parse);
        match v {
            post_op_fh3View::Void => {
                lemma_roundtrip_bool(false, s, at);
            },
            post_op_fh3View::handle(x) => {
                lemma_holds_at_concat(s, at, bool_wire(true), nfs_fh3::wire(x));
                lemma_roundtrip_bool(true, s, at);
                nfs_fh3::lemma_roundtrip(x, s, at + 4);
            },
        }
    }

    /// Whether the value has an encoding.
    pub fn fits(&self) -> (b: bool)
        ensures
            b == Self::encodable(self@),
    {
        match self {
            post_op_fh3::Void => true,
            post_op_fh3::handle(x) => x.fits(),
        }
    }

    /// Appends the encoding of the value to `out`.
    pub fn serialize(&self, out: &mut Vec<u8>)
        requires
            Self::encodable(self@),
        ensures
            final(out)@ == old(out)@ + Self::wire(self@),
    {
        proof {
            reveal(post_op_fh3::wire);
        }
        match self {
            post_op_fh3::Void => {
                encode_bool(false, out);
            },
            post_op_fh3::handle(x) => {
                encode_bool(true, out);
                x.serialize(out);
                assert(out@ =~= old(out)@ + Self::wire(self@));
            },
        }
    }

    /// Decodes a value at the offset `at` of `input`, and returns it with the
    /// offset behind it.
    pub fn deserialize(input: &[u8], at: usize) -> (r: Result<(post_op_fh3, usize), DecodeError>)
        ensures
            match Self::parse(input@, at as int) {
                Some((v, end)) => r matches Ok(p) && p.0@ == v && p.1 == end && end <= input@.len(),
                None => r is Err,
            },
    {
        proof {
            reveal(post_op_fh3::parse);
        }
        let (present, at) = decode_bool(input, at)?;
        if present {
            let (x, at) = nfs_fh3::deserialize(input, at)?;
            Ok((post_op_fh3::handle(x), at))
        } else {
            Ok((post_op_fh3::Void, at))
        }
    }
}

impl Default for post_op_fh3 {
    fn default() -> (r: Self)
        ensures
            r@ == post_op_fh3View::Void,
    {
        post_op_fh3::Void
    }
}

/// The mode to set, if any.
#[derive(Copy, Clone, Debug, PartialEq, Eq)]
pub enum set_mode3 {
    Void,
    mode(mode3),
}

impl set_mode3 {
    /// The discriminant, then the contents of the arm.
    #[verifier::opaque]
    pub open spec fn wire(v: set_mode3) -> Seq<u8> {
        match v {
            set_mode3::Void => bool_wire(false),
            set_mode3::mode(x) => bool_wire(true) + u32_wire(x),
        }
    }

    /// What a decoder reads at the offset `at` of `s`, with the offset behind
    /// it; `None` where the flag or the value does not decode.
    #[verifier::opaque]
    pub open spec fn parse(s: Seq<u8>, at: int) -> Option<(set_mode3, int)> {
        match parse_bool(s, at) {
            None => None,
            Some((present, a1)) => if present {
                match parse_u32(s, a1) {
                    None => None,
                    Some((x, end)) => Some((set_mode3::mode(x), end)),
                }
            } else {
                Some((set_mode3::Void, a1))
            },
        }
    }

    /// Round trip: wherever the encoding of `v` stands in a buffer, the
    /// decoder reads `v` there and stops right behind it.
    pub proof fn lemma_roundtrip(v: set_mode3, s: Seq<u8>, at: int)
        requires
            holds_at(s, at, Self::wire(v)),
        ensures
            Self::parse(s, at) == Some((v, at + Self::wire(v).len())),
    {
        reveal(set_mode3::wire);
        reveal(set_mode3::parse);
        match v {
            set_mode3::Void => {
                lemma_roundtrip_bool(false, s, at);
            },
            set_mode3::mode(x) => {
                lemma_holds_at_concat(s, at, bool_wire(true), u32_wire(x));
                lemma_roundtrip_bool(true, s, at);
                lemma_roundtrip_u32(x, s, at + 4);
            },
        }
    }

    /// Appends the encoding of the value to `out`.
    pub fn serialize(&self, out: &mut Vec<u8>)
        ensures
            final(out)@ == old(out)@ + Self::wire(*self),
    {
        proof {
            reveal(set_mode3::wire);
        }
        match self {
            set_mode3::Void => {
                encode_bool(false, out);
            },
            set_mode3::mode(x) => {
                encode_bool(true, out);
                encode_u32(*x, out);
                assert(out@ =~= old(out)@ + Self::wire(*self));
            },
        }
    }

    /// Decodes a value at the offset `at` of `input`, and returns it with the
    /// offset behind it.
    pub fn deserialize(input: &[u8], at: usize) -> (r: Result<(set_mode3, usize), DecodeError>)
        ensures
            match Self::parse(input@, at as int) {
                Some((v, end)) => r matches Ok(p) && p.0 == v && p.1 == end && end <= input@.len(),
                None => r is Err,
            },
    {
        proof {
            reveal(set_mode3::parse);
        }
        let (present, at) = decode_bool(input, at)?;
        if present {
            let (x, at) = decode_u32(input, at)?;
            Ok((set_mode3::mode(x), at))
        } else {
            Ok((set_mode3::Void, at))
        }
    }
}

impl Default for set_mode3 {
    fn default() -> (r: Self)
        ensures
            r == set_mode3::Void,
    {
        set_mode3::Void
    }
}

/// The owner to set, if any.
#[derive(Copy, Clone, Debug, PartialEq, Eq)]
pub enum set_uid3 {
    Void,
    uid(uid3),
}

impl set_uid3 {
    /// The discriminant, then the contents of the arm.
    #[verifier::opaque]
    pub open spec fn wire(v: set_uid3) -> Seq<u8> {
        match v {
            set_uid3::Void => bool_wire(false),
            set_uid3::uid(x) => bool_wire(true) + u32_wire(x),
        }
    }

    /// What a decoder reads at the offset `at` of `s`, with the offset behind
    /// it; `None` where the flag or the value does not decode.
    #[verifier::opaque]
    pub open spec fn parse(s: Seq<u8>, at: int) -> Option<(set_uid3, int)> {
        match parse_bool(s, at) {
            None => None,
            Some((present, a1)) => if present {
                match parse_u32(s, a1) {
                    None => None,
                    Some((x, end)) => Some((set_uid3::uid(x), end)),
                }
            } else {
                Some((set_uid3::Void, a1))
            },
        }
    }

    /// Round trip: wherever the encoding of `v` stands in a buffer, the
    /// decoder reads `v` there and stops right behind it.
    pub proof fn lemma_roundtrip(v: set_uid3, s: Seq<u8>, at: int)
        requires
            holds_at(s, at, Self::wire(v)),
        ensures
            Self::parse(s, at) == Some((v, at + Self::wire(v).len())),
    {
        reveal(set_uid3::wire);
        reveal(set_uid3::parse);
        match v {
            set_uid3::Void => {
                lemma_roundtrip_bool(false, s, at);
            },
            set_uid3::uid(x) => {
                lemma_holds_at_concat(s, at, bool_wire(true), u32_wire(x));
                lemma_roundtrip_bool(true, s, at);
                lemma_roundtrip_u32(x, s, at + 4);
            },
        }
    }

    /// Appends the encoding of the value to `out`.
    pub fn serialize(&self, out: &mut Vec<u8>)
        ensures
            final(out)@ == old(out)@ + Self::wire(*self),
    {
        proof {
            reveal(set_uid3::wire);
        }
        match self {
            set_uid3::Void => {
                encode_bool(false, out);
            },
            set_uid3::uid(x) => {
                encode_bool(true, out);
                encode_u32(*x, out);
                assert(out@ =~= old(out)@ + Self::wire(*self));
            },
        }
    }

    /// Decodes a value at the offset `at` of `input`, and returns it with the
    /// offset behind it.
    pub fn deserialize(input: &[u8], at: usize) -> (r: Result<(set_uid3, usize), DecodeError>)
        ensures
            match Self::parse(input@, at as int) {
                Some((v, end)) => r matches Ok(p) && p.0 == v && p.1 == end && end <= input@.len(),
                None => r is Err,
            },
    {
        proof {
            reveal(set_uid3::parse);
        }
        let (present, at) = decode_bool(input, at)?;
        if present {
            let (x, at) = decode_u32(input, at)?;
            Ok((set_uid3::uid(x), at))
        } else {
            Ok((set_uid3::Void, at))
        }
    }
}

impl Default for set_uid3 {
    fn default() -> (r: Self)
        ensures
            r == set_uid3::Void,
    {
        set_uid3::Void
    }
}

/// The group to set, if any.
#[derive(Copy, Clone, Debug, PartialEq, Eq)]
pub enum set_gid3 {
    Void,
    gid(gid3),
}

impl set_gid3 {
    /// The discriminant, then the contents of the arm.
    #[verifier::opaque]
    pub open spec fn wire(v: set_gid3) -> Seq<u8> {
        match v {
            set_gid3::Void => bool_wire(false),
            set_gid3::gid(x) => bool_wire(true) + u32_wire(x),
        }
    }

    /// What a decoder reads at the offset `at` of `s`, with the offset behind
    /// it; `None` where the flag or the value does not decode.
    #[verifier::opaque]
    pub open spec fn parse(s: Seq<u8>, at: int) -> Option<(set_gid3, int)> {
        match parse_bool(s, at) {
            None => None,
            Some((present, a1)) => if present {
                match parse_u32(s, a1) {
                    None => None,
                    Some((x, end)) => Some((set_gid3::gid(x), end)),
                }
            } else {
                Some((set_gid3::Void, a1))
            },
        }
    }

    /// Round trip: wherever the encoding of `v` stands in a buffer, the
    /// decoder reads `v` there and stops right behind it.
    pub proof fn lemma_roundtrip(v: set_gid3, s: Seq<u8>, at: int)
        requires
            holds_at(s, at, Self::wire(v)),
        ensures
            Self::parse(s, at) == Some((v, at + Self::wire(v).len())),
    {
        reveal(set_gid3::wire);
        reveal(set_gid3::parse);
        match v {
            set_gid3::Void => {
                lemma_roundtrip_bool(false, s, at);
            },
            set_gid3::gid(x) => {
                lemma_holds_at_concat(s, at, bool_wire(true), u32_wire(x));
                lemma_roundtrip_bool(true, s, at);
                lemma_roundtrip_u32(x, s, at + 4);
            },
        }
    }

    /// Appends the encoding of the value to `out`.
    pub fn serialize(&self, out: &mut Vec<u8>)
        ensures
            final(out)@ == old(out)@ + Self::wire(*self),
    {
        proof {
            reveal(set_gid3::wire);
        }
        match self {
            set_gid3::Void => {
                encode_bool(false, out);
            },
            set_gid3::gid(x) => {
                encode_bool(true, out);
                encode_u32(*x, out);
                assert(out@ =~= old(out)@ + Self::wire(*self));
            },
        }
    }

    /// Decodes a value at the offset `at` of `input`, and returns it with the
    /// offset behind it.
    pub fn deserialize(input: &[u8], at: usize) -> (r: Result<(set_gid3, usize), DecodeError>)
        ensures
            match Self::parse(input@, at as int) {
                Some((v, end)) => r matches Ok(p) && p.0 == v && p.1 == end && end <= input@.len(),
                None => r is Err,
            },
    {
        proof {
            reveal(set_gid3::parse);
        }
        let (present, at) = decode_bool(input, at)?;
        if present {
            let (x, at) = decode_u32(input, at)?;
            Ok((set_gid3::gid(x), at))
        } else {
            Ok((set_gid3::Void, at))
        }
    }
}

impl Default for set_gid3 {
    fn default() -> (r: Self)
        ensures
            r == set_gid3::Void,
    {
        set_gid3::Void
    }
}

/// The size to set, if any.
#[derive(Copy, Clone, Debug, PartialEq, Eq)]
pub enum set_size3 {
    Void,
    size(size3),
}

impl set_size3 {
    /// The discriminant, then the contents of the arm.
    #[verifier::opaque]
    pub open spec fn wire(v: set_size3) -> Seq<u8> {
        match v {
            set_size3::Void => bool_wire(false),
            set_size3::size(x) => bool_wire(true) + u64_wire(x),
        }
    }

    /// What a decoder reads at the offset `at` of `s`, with the offset behind
    /// it; `None` where the flag or the value does not decode.
    #[verifier::opaque]
    pub open spec fn parse(s: Seq<u8>, at: int) -> Option<(set_size3, int)> {
        match parse_bool(s, at) {
            None => None,
            Some((present, a1)) => if present {
                match parse_u64(s, a1) {
                    None => None,
                    Some((x, end)) => Some((set_size3::size(x), end)),
                }
            } else {
                Some((set_size3::Void, a1))
            },
        }
    }

    /// Round trip: wherever the encoding of `v` stands in a buffer, the
    /// decoder reads `v` there and stops right behind it.
    pub proof fn lemma_roundtrip(v: set_size3, s: Seq<u8>, at: int)
        requires
            holds_at(s, at, Self::wire(v)),
        ensures
            Self::parse(s, at) == Some((v, at + Self::wire(v).len())),
    {
        reveal(set_size3::wire);
        reveal(set_size3::parse);
        match v {
            set_size3::Void => {
                lemma_roundtrip_bool(false, s, at);
            },
            set_size3::size(x) => {
                lemma_holds_at_concat(s, at, bool_wire(true), u64_wire(x));
                lemma_roundtrip_bool(true, s, at);
                lemma_roundtrip_u64(x, s, at + 4);
            },
        }
    }

    /// Appends the encoding of the value to `out`.
    pub fn serialize(&self, out: &mut Vec<u8>)
        ensures
            final(out)@ == old(out)@ + Self::wire(*self),
    {
        proof {
            reveal(set_size3::wire);
        }
        match self {
            set_size3::Void => {
                encode_bool(false, out);
            },
            set_size3::size(x) => {
                encode_bool(true, out);
                encode_u64(*x, out);
                assert(out@ =~= old(out)@ + Self::wire(*self));
            },
        }
    }

    /// Decodes a value at the offset `at` of `input`, and returns it with the
    /// offset behind it.
    pub fn deserialize(input: &[u8], at: usize) -> (r: Result<(set_size3, usize), DecodeError>)
        ensures
            match Self::parse(input@, at as int) {
                Some((v, end)) => r matches Ok(p) && p.0 == v && p.1 == end && end <= input@.len(),
                None => r is Err,
            },
    {
        proof {
            reveal(set_size3::parse);
        }
        let (present, at) = decode_bool(input, at)?;
        if present {
            let (x, at) = decode_u64(input, at)?;
            Ok((set_size3::size(x), at))
        } else {
            Ok((set_size3::Void, at))
        }
    }
}

impl Default for set_size3 {
    fn default() -> (r: Self)
        ensures
            r == set_size3::Void,
    {
        set_size3::Void
    }
}

/// The access time to set, if any.
#[derive(Copy, Clone, Debug, PartialEq, Eq)]
pub enum set_atime {
    DONT_CHANGE,
    SET_TO_SERVER_TIME,
    SET_TO_CLIENT_TIME(nfstime3),
}

impl set_atime {
    /// The discriminant, then the contents of the arm.
    #[verifier::opaque]
    pub open spec fn wire(v: set_atime) -> Seq<u8> {
        match v {
            set_atime::DONT_CHANGE => u32_wire(0),
            set_atime::SET_TO_SERVER_TIME => u32_wire(1),
            set_atime::SET_TO_CLIENT_TIME(x) => u32_wire(2) + nfstime3::wire(x),
        }
    }

    /// What a decoder reads at the offset `at` of `s`, with the offset behind
    /// it; `None` where the discriminant or the arm does not decode.
    #[verifier::opaque]
    pub open spec fn parse(s: Seq<u8>, at: int) -> Option<(set_atime, int)> {
        match parse_u32(s, at) {
            None => None,
            Some((tag, a1)) => if tag == 0 {
                Some((set_atime::DONT_CHANGE, a1))
            } else if tag == 1 {
                Some((set_atime::SET_TO_SERVER_TIME, a1))
            } else if tag == 2 {
                match nfstime3::parse(s, a1) {
                    None => None,
                    Some((x, end)) => Some((set_atime::SET_TO_CLIENT_TIME(x), end)),
                }
            } else {
                None
            },
        }
    }

    /// Round trip: wherever the encoding of `v` stands in a buffer, the
    /// decoder reads `v` there and stops right behind it.
    pub proof fn lemma_roundtrip(v: set_atime, s: Seq<u8>, at: int)
        requires
            holds_at(s, at, Self::wire(v)),
        ensures
            Self::parse(s, at) == Some((v, at + Self::wire(v).len())),
    {
        reveal(set_atime::wire);
        reveal(set_atime::parse);
        match v {
            set_atime::DONT_CHANGE => {
                lemma_roundtrip_u32(0, s, at);
            },
            set_atime::SET_TO_SERVER_TIME => {
                lemma_roundtrip_u32(1, s, at);
            },
            set_atime::SET_TO_CLIENT_TIME(x) => {
                lemma_holds_at_concat(s, at, u32_wire(2), nfstime3::wire(x));
                lemma_roundtrip_u32(2, s, at);
                nfstime3::lemma_roundtrip(x, s, at + 4);
            },
        }
    }

    /// Appends the encoding of the value to `out`.
    pub fn serialize(&self, out: &mut Vec<u8>)
        ensures
            final(out)@ == old(out)@ + Self::wire(*self),
    {
        proof {
            reveal(set_atime::wire);
        }
        match self {
            set_atime::DONT_CHANGE => {
                encode_u32(0, out);
            },
            set_atime::SET_TO_SERVER_TIME => {
                encode_u32(1, out);
            },
            set_atime::SET_TO_CLIENT_TIME(x) => {
                encode_u32(2, out);
                x.serialize(out);
                assert(out@ =~= old(out)@ + Self::wire(*self));
            },
        }
    }

    /// Decodes a value at the offset `at` of `input`, and returns it with the
    /// offset behind it.
    pub fn deserialize(input: &[u8], at: usize) -> (r: Result<(set_atime, usize), DecodeError>)
        ensures
            match Self::parse(input@, at as int) {
                Some((v, end)) => r matches Ok(p) && p.0 == v && p.1 == end && end <= input@.len(),
                None => r is Err,
            },
    {
        proof {
            reveal(set_atime::parse);
        }
        let (tag, at) = decode_u32(input, at)?;
        if tag == 0 {
            Ok((set_atime::DONT_CHANGE, at))
        } else if tag == 1 {
            Ok((set_atime::SET_TO_SERVER_TIME, at))
        } else if tag == 2 {
            let (x, at) = nfstime3::deserialize(input, at)?;
            Ok((set_atime::SET_TO_CLIENT_TIME(x), at))
        } else {
            Err(DecodeError {  })
        }
    }
}

impl Default for set_atime {
    fn default() -> (r: Self)
        ensures
            r == set_atime::DONT_CHANGE,
    {
        set_atime::DONT_CHANGE
    }
}

/// The modification time to set, if any.
#[derive(Copy, Clone, Debug, PartialEq, Eq)]
pub enum set_mtime {
    DONT_CHANGE,
    SET_TO_SERVER_TIME,
    SET_TO_CLIENT_TIME(nfstime3),
}

impl set_mtime {
    /// The discriminant, then the contents of the arm.
    #[verifier::opaque]
    pub open spec fn wire(v: set_mtime) -> Seq<u8> {
        match v {
            set_mtime::DONT_CHANGE => u32_wire(0),
            set_mtime::SET_TO_SERVER_TIME => u32_wire(1),
            set_mtime::SET_TO_CLIENT_TIME(x) => u32_wire(2) + nfstime3::wire(x),
        }
    }

    /// What a decoder reads at the offset `at` of `s`, with the offset behind
    /// it; `None` where the discriminant or the arm does not decode.
    #[verifier::opaque]
    pub open spec fn parse(s: Seq<u8>, at: int) -> Option<(set_mtime, int)> {
        match parse_u32(s, at) {
            None => None,
            Some((tag, a1)) => if tag == 0 {
                Some((set_mtime::DONT_CHANGE, a1))
            } else if tag == 1 {
                Some((set_mtime::SET_TO_SERVER_TIME, a1))
            } else if tag == 2 {
                match nfstime3::parse(s, a1) {
                    None => None,
                    Some((x, end)) => Some((set_mtime::SET_TO_CLIENT_TIME(x), end)),
                }
            } else {
                None
            },
        }
    }

    /// Round trip: wherever the encoding of `v` stands in a buffer, the
    /// decoder reads `v` there and stops right behind it.
    pub proof fn lemma_roundtrip(v: set_mtime, s: Seq<u8>, at: int)
        requires
            holds_at(s, at, Self::wire(v)),
        ensures
            Self::parse(s, at) == Some((v, at + Self::wire(v).len())),
    {
        reveal(set_mtime::wire);
        reveal(set_mtime::parse);
        match v {
            set_mtime::DONT_CHANGE => {
                lemma_roundtrip_u32(0, s, at);
            },
            set_mtime::SET_TO_SERVER_TIME => {
                lemma_roundtrip_u32(1, s, at);
            },
            set_mtime::SET_TO_CLIENT_TIME(x) => {
                lemma_holds_at_concat(s, at, u32_wire(2), nfstime3::wire(x));
                lemma_roundtrip_u32(2, s, at);
                nfstime3::lemma_roundtrip(x, s, at + 4);
            },
        }
    }

    /// Appends the encoding of the value to `out`.
    pub fn serialize(&self, out: &mut Vec<u8>)
        ensures
            final(out)@ == old(out)@ + Self::wire(*self),
    {
        proof {
            reveal(set_mtime::wire);
        }
        match self {
            set_mtime::DONT_CHANGE => {
                encode_u32(0, out);
            },
            set_mtime::SET_TO_SERVER_TIME => {
                encode_u32(1, out);
            },
            set_mtime::SET_TO_CLIENT_TIME(x) => {
                encode_u32(2, out);
                x.serialize(out);
                assert(out@ =~= old(out)@ + Self::wire(*self));
            },
        }
    }

    /// Decodes a value at the offset `at` of `input`, and returns it with the
    /// offset behind it.
    pub fn deserialize(input: &[u8], at: usize) -> (r: Result<(set_mtime, usize), DecodeError>)
        ensures
            match Self::parse(input@, at as int) {
                Some((v, end)) => r matches Ok(p) && p.0 == v && p.1 == end && end <= input@.len(),
                None => r is Err,
            },
    {
        proof {
            reveal(set_mtime::parse);
        }
        let (tag, at) = decode_u32(input, at)?;
        if tag == 0 {
            Ok((set_mtime::DONT_CHANGE, at))
        } else if tag == 1 {
            Ok((set_mtime::SET_TO_SERVER_TIME, at))
        } else if tag == 2 {
            let (x, at) = nfstime3::deserialize(input, at)?;
            Ok((set_mtime::SET_TO_CLIENT_TIME(x), at))
        } else {
            Err(DecodeError {  })
        }
    }
}

impl Default for set_mtime {
    fn default() -> (r: Self)
        ensures
            r == set_mtime::DONT_CHANGE,
    {
        set_mtime::DONT_CHANGE
    }
}

/// The attributes that a client asks to set.
#[derive(Copy, Clone, Debug, PartialEq, Eq)]
pub struct sattr3 {
    pub mode: set_mode3,
    pub uid: set_uid3,
    pub gid: set_gid3,
    pub size: set_size3,
    pub atime: set_atime,
    pub mtime: set_mtime,
}

impl sattr3 {
    /// The fields one behind the other, in the order of their declaration.
    #[verifier::opaque]
    pub open spec fn wire(v: sattr3) -> Seq<u8> {
        set_mode3::wire(v.mode) + set_uid3::wire(v.uid) + set_gid3::wire(v.gid)
            + set_size3::wire(v.size) + set_atime::wire(v.atime) + set_mtime::wire(v.mtime)
    }

    /// What a decoder reads at the offset `at` of `s`, with the offset behind
    /// it; `None` where a field does not decode.
    #[verifier::opaque]
    pub open spec fn parse(s: Seq<u8>, at: int) -> Option<(sattr3, int)> {
        match set_mode3::parse(s, at) {
            None => None,
            Some((mode, a1)) => match set_uid3::parse(s, a1) {
                None => None,
                Some((uid, a2)) => match set_gid3::parse(s, a2) {
                    None => None,
                    Some((gid, a3)) => match set_size3::parse(s, a3) {
                        None => None,
                        Some((size, a4)) => match set_atime::parse(s, a4) {
                            None => None,
                            Some((atime, a5)) => match set_mtime::parse(s, a5) {
                                None => None,
                                Some((mtime, a6)) => Some(
                                    (
                                        sattr3 {
                                            mode,
                                            uid,
                                            gid,
                                            size,
                                            atime,
                                            mtime,
                                        },
                                        a6,
                                    ),
                                ),
                            },
                        },
                    },
                },
            },
        }
    }

    /// Round trip: wherever the encoding of `v` stands in a buffer, the
    /// decoder reads `v` there and stops right behind it.
    pub proof fn lemma_roundtrip(v: sattr3, s: Seq<u8>, at: int)
        requires
            holds_at(s, at, Self::wire(v)),
        ensures
            Self::parse(s, at) == Some((v, at + Self::wire(v).len())),
    {
        reveal(sattr3::wire);
        reveal(sattr3::parse);
        let w0 = set_mode3::wire(v.mode);
        let w1 = set_uid3::wire(v.uid);
        let w2 = set_gid3::wire(v.gid);
        let w3 = set_size3::wire(v.size);
        let w4 = set_atime::wire(v.atime);
        let w5 = set_mtime::wire(v.mtime);
        let p1 = w0 + w1;
        let p2 = p1 + w2;
        let p3 = p2 + w3;
        let p4 = p3 + w4;
        lemma_holds_at_concat(s, at, p4, w5);
        lemma_holds_at_concat(s, at, p3, w4);
        lemma_holds_at_concat(s, at, p2, w3);
        lemma_holds_at_concat(s, at, p1, w2);
        lemma_holds_at_concat(s, at, w0, w1);
        set_mode3::lemma_roundtrip(v.mode, s, at);
        set_uid3::lemma_roundtrip(v.uid, s, at + w0.len());
        set_gid3::lemma_roundtrip(v.gid, s, at + p1.len());
        set_size3::lemma_roundtrip(v.size, s, at + p2.len());
        set_atime::lemma_roundtrip(v.atime, s, at + p3.len());
        set_mtime::lemma_roundtrip(v.mtime, s, at + p4.len());
    }

    /// Appends the encoding of the value to `out`.
    pub fn serialize(&self, out: &mut Vec<u8>)
        ensures
            final(out)@ == old(out)@ + Self::wire(*self),
    {
        proof {
            reveal(sattr3::wire);
        }
        let ghost base = out@;
        self.mode.serialize(out);
        self.uid.serialize(out);
        proof {
            lemma_concat_assoc(base, set_mode3::wire(self.mode), set_uid3::wire(self.uid));
        }
        self.gid.serialize(out);
        proof {
            lemma_concat_assoc(
                base,
                set_mode3::wire(self.mode) + set_uid3::wire(self.uid),
                set_gid3::wire(self.gid),
            );
        }
        self.size.serialize(out);
        proof {
            lemma_concat_assoc(
                base,
                set_mode3::wire(self.mode) + set_uid3::wire(self.uid) + set_gid3::wire(self.gid),
                set_size3::wire(self.size),
            );
        }
        self.atime.serialize(out);
        proof {
            lemma_concat_assoc(
                base,
                set_mode3::wire(self.mode) + set_uid3::wire(self.uid) + set_gid3::wire(self.gid)
                    + set_size3::wire(self.size),
                set_atime::wire(self.atime),
            );
        }
        self.mtime.serialize(out);
        proof {
            lemma_concat_assoc(
                base,
                set_mode3::wire(self.mode) + set_uid3::wire(self.uid) + set_gid3::wire(self.gid)
                    + set_size3::wire(self.size) + set_atime::wire(self.atime),
                set_mtime::wire(self.mtime),
            );
        }
    }

    /// Decodes a value at the offset `at` of `input`, and returns it with the
    /// offset behind it.
    pub fn deserialize(input: &[u8], at: usize) -> (r: Result<(sattr3, usize), DecodeError>)
        ensures
            match Self::parse(input@, at as int) {
                Some((v, end)) => r matches Ok(p) && p.0 == v && p.1 == end && end <= input@.len(),
                None => r is Err,
            },
    {
        proof {
            reveal(sattr3::parse);
        }
        let (mode, at) = set_mode3::deserialize(input, at)?;
        let (uid, at) = set_uid3::deserialize(input, at)?;
        let (gid, at) = set_gid3::deserialize(input, at)?;
        let (size, at) = set_size3::deserialize(input, at)?;
        let (atime, at) = set_atime::deserialize(input, at)?;
        let (mtime, at) = set_mtime::deserialize(input, at)?;
        Ok((sattr3 { mode, uid, gid, size, atime, mtime }, at))
    }
}

impl sattr3 {
    /// The value with every number zero, every list empty and every choice
    /// at its first arm.
    pub open spec fn zero() -> sattr3 {
        sattr3 {
            mode: set_mode3::Void,
            uid: set_uid3::Void,
            gid: set_gid3::Void,
            size: set_size3::Void,
            atime: set_atime::DONT_CHANGE,
            mtime: set_mtime::DONT_CHANGE,
        }
    }
}

impl Default for sattr3 {
    fn default() -> (r: Self)
        ensures
            r == Self::zero(),
    {
        sattr3 {
            mode: set_mode3::default(),
            uid: set_uid3::default(),
            gid: set_gid3::default(),
            size: set_size3::default(),
            atime: set_atime::default(),
            mtime: set_mtime::default(),
        }
    }
}

/// A directory and a name in it.
#[derive(Clone, Debug, PartialEq, Eq)]
pub struct diropargs3 {
    pub dir: nfs_fh3,
    pub name: filename3,
}

/// What a [`diropargs3`] holds, as plain values.
pub struct diropargs3View {
    pub dir: Seq<u8>,
    pub name: Seq<u8>,
}

impl View for diropargs3 {
    type V = diropargs3View;

    open spec fn view(&self) -> diropargs3View {
        diropargs3View {
            dir: self.dir@,
            name: self.name@,
        }
    }
}

impl diropargs3 {
    /// Every length in the value fits the 32 bits that the wire gives it.
    pub open spec fn encodable(v: diropargs3View) -> bool {
        &&& nfs_fh3::encodable(v.dir)
        &&& nfsstring::encodable(v.name)
    }

    /// The fields one behind the other, in the order of their declaration.
    #[verifier::opaque]
    pub open spec fn wire(v: diropargs3View) -> Seq<u8> {
        nfs_fh3::wire(v.dir) + nfsstring::wire(v.name)
    }

    /// What a decoder reads at the offset `at` of `s`, with the offset behind
    /// it; `None` where a field does not decode.
    #[verifier::opaque]
    pub open spec fn parse(s: Seq<u8>, at: int) -> Option<(diropargs3View, int)> {
        match nfs_fh3::parse(s, at) {
            None => None,
            Some((dir, a1)) => match nfsstring::parse(s, a1) {
                None => None,
                Some((name, a2)) => Some((diropargs3View { dir, name }, a2)),
            },
        }
    }

    /// Round trip: wherever the encoding of `v` stands in a buffer, the
    /// decoder reads `v` there and stops right behind it.
    pub proof fn lemma_roundtrip(v: diropargs3View, s: Seq<u8>, at: int)
        requires
            Self::encodable(v),
            holds_at(s, at, Self::wire(v)),
        ensures
            Self::parse(s, at) == Some((v, at + Self::wire(v).len())),
    {
        reveal(diropargs3::wire);
        reveal(diropargs3::parse);
        let w0 = nfs_fh3::wire(v.dir);
        let w1 = nfsstring::wire(v.name);
        lemma_holds_at_concat(s, at, w0, w1);
        nfs_fh3::lemma_roundtrip(v.dir, s, at);
        nfsstring::lemma_roundtrip(v.name, s, at + w0.len());
    }

    /// Whether the value has an encoding.
    pub fn fits(&self) -> (b: bool)
        ensures
            b == Self::encodable(self@),
    {
        self.dir.fits() && self.name.fits()
    }

    /// Appends the encoding of the value to `out`.
    pub fn serialize(&self, out: &mut Vec<u8>)
        requires
            Self::encodable(self@),
        ensures
            final(out)@ == old(out)@ + Self::wire(self@),
    {
        proof {
            reveal(diropargs3::wire);
        }
        let ghost base = out@;
        self.dir.serialize(out);
        self.name.serialize(out);
        proof {
            lemma_concat_assoc(base, nfs_fh3::wire(self.dir@), nfsstring::wire(self.name@));
        }
    }

    /// Decodes a value at the offset `at` of `input`, and returns it with the
    /// offset behind it.
    pub fn deserialize(input: &[u8], at: usize) -> (r: Result<(diropargs3, usize), DecodeError>)
        ensures
            match Self::parse(input@, at as int) {
                Some((v, end)) => r matches Ok(p) && p.0@ == v && p.1 == end && end <= input@.len(),
                None => r is Err,
            },
    {
        proof {
            reveal(diropargs3::parse);
        }
        let (dir, at) = nfs_fh3::deserialize(input, at)?;
        let (name, at) = nfsstring::deserialize(input, at)?;
        Ok((diropargs3 { dir, name }, at))
    }
}

impl diropargs3 {
    /// The value with every number zero, every list empty and every choice
    /// at its first arm.
    pub open spec fn zero() -> diropargs3View {
        diropargs3View {
            dir: Seq::<u8>::empty(),
            name: Seq::<u8>::empty(),
        }
    }
}

impl Default for diropargs3 {
    fn default() -> (r: Self)
        ensures
            r@ == Self::zero(),
    {
        diropargs3 {
            dir: nfs_fh3::default(),
            name: filename3::default(),
        }
    }
}

/// The attributes and the target of a symbolic link to make.
#[derive(Clone, Debug, PartialEq, Eq)]
pub struct symlinkdata3 {
    pub symlink_attributes: sattr3,
    pub symlink_data: nfspath3,
}

/// What a [`symlinkdata3`] holds, as plain values.
pub struct symlinkdata3View {
    pub symlink_attributes: sattr3,
    pub symlink_data: Seq<u8>,
}

impl View for symlinkdata3 {
    type V = symlinkdata3View;

    open spec fn view(&self) -> symlinkdata3View {
        symlinkdata3View {
            symlink_attributes: self.symlink_attributes,
            symlink_data: self.symlink_data@,
        }
    }
}

impl symlinkdata3 {
    /// Every length in the value fits the 32 bits that the wire gives it.
    pub open spec fn encodable(v: symlinkdata3View) -> bool {
        nfsstring::encodable(v.symlink_data)
    }

    /// The fields one behind the other, in the order of their declaration.
    #[verifier::opaque]
    pub open spec fn wire(v: symlinkdata3View) -> Seq<u8> {
        sattr3::wire(v.symlink_attributes) + nfsstring::wire(v.symlink_data)
    }

    /// What a decoder reads at the offset `at` of `s`, with the offset behind
    /// it; `None` where a field does not decode.
    #[verifier::opaque]
    pub open spec fn parse(s: Seq<u8>, at: int) -> Option<(symlinkdata3View, int)> {
        match sattr3::parse(s, at) {
            None => None,
            Some((symlink_attributes, a1)) => match nfsstring::parse(s, a1) {
                None => None,
                Some((symlink_data, a2)) => Some(
                    (
                        symlinkdata3View {
                            symlink_attributes,
                            symlink_data,
                        },
                        a2,
                    ),
                ),
            },
        }
    }

    /// Round trip: wherever the encoding of `v` stands in a buffer, the
    /// decoder reads `v` there and stops right behind it.
    pub proof fn lemma_roundtrip(v: symlinkdata3View, s: Seq<u8>, at: int)
        requires
            Self::encodable(v),
            holds_at(s, at, Self::wire(v)),
        ensures
            Self::parse(s, at) == Some((v, at + Self::wire(v).len())),
    {
        reveal(symlinkdata3::wire);
        reveal(symlinkdata3::parse);
        let w0 = sattr3::wire(v.symlink_attributes);
        let w1 = nfsstring::wire(v.symlink_data);
        lemma_holds_at_concat(s, at, w0, w1);
        sattr3::lemma_roundtrip(v.symlink_attributes, s, at);
        nfsstring::lemma_roundtrip(v.symlink_data, s, at + w0.len());
    }

    /// Whether the value has an encoding.
    pub fn fits(&self) -> (b: bool)
        ensures
            b == Self::encodable(self@),
    {
        self.symlink_data.fits()
    }

    /// Appends the encoding of the value to `out`.
    pub fn serialize(&self, out: &mut Vec<u8>)
        requires
            Self::encodable(self@),
        ensures
            final(out)@ == old(out)@ + Self::wire(self@),
    {
        proof {
            reveal(symlinkdata3::wire);
        }
        let ghost base = out@;
        self.symlink_attributes.serialize(out);
        self.symlink_data.serialize(out);
        proof {
            lemma_concat_assoc(
                base,
                sattr3::wire(self.symlink_attributes),
                nfsstring::wire(self.symlink_data@),
            );
        }
    }

    /// Decodes a value at the offset `at` of `input`, and returns it with the
    /// offset behind it.
    pub fn deserialize(input: &[u8], at: usize) -> (r: Result<(symlinkdata3, usize), DecodeError>)
        ensures
            match Self::parse(input@, at as int) {
                Some((v, end)) => r matches Ok(p) && p.0@ == v && p.1 == end && end <= input@.len(),
                None => r is Err,
            },
    {
        proof {
            reveal(symlinkdata3::parse);
        }
        let (symlink_attributes, at) = sattr3::deserialize(input, at)?;
        let (symlink_data, at) = nfsstring::deserialize(input, at)?;
        Ok((symlinkdata3 { symlink_attributes, symlink_data }, at))
    }
}

impl symlinkdata3 {
    /// The value with every number zero, every list empty and every choice
    /// at its first arm.
    pub open spec fn zero() -> symlinkdata3View {
        symlinkdata3View {
            symlink_attributes: sattr3::zero(),
            symlink_data: Seq::<u8>::empty(),
        }
    }
}

impl Default for symlinkdata3 {
    fn default() -> (r: Self)
        ensures
            r@ == Self::zero(),
    {
        symlinkdata3 {
            symlink_attributes: sattr3::default(),
            symlink_data: nfspath3::default(),
        }
    }
}

/// The change time that an object must still have for SETATTR to go ahead, if
/// the client names one.
#[derive(Copy, Clone, Debug, PartialEq, Eq)]
pub enum sattrguard3 {
    Void,
    obj_ctime(nfstime3),
}

impl sattrguard3 {
    /// The discriminant, then the contents of the arm.
    #[verifier::opaque]
    pub open spec fn wire(v: sattrguard3) -> Seq<u8> {
        match v {
            sattrguard3::Void => bool_wire(false),
            sattrguard3::obj_ctime(x) => bool_wire(true) + nfstime3::wire(x),
        }
    }

    /// What a decoder reads at the offset `at` of `s`, with the offset behind
    /// it; `None` where the flag or the value does not decode.
    #[verifier::opaque]
    pub open spec fn parse(s: Seq<u8>, at: int) -> Option<(sattrguard3, int)> {
        match parse_bool(s, at) {
            None => None,
            Some((present, a1)) => if present {
                match nfstime3::parse(s, a1) {
                    None => None,
                    Some((x, end)) => Some((sattrguard3::obj_ctime(x), end)),
                }
            } else {
                Some((sattrguard3::Void, a1))
            },
        }
    }

    /// Round trip: wherever the encoding of `v` stands in a buffer, the
    /// decoder reads `v` there and stops right behind it.
    pub proof fn lemma_roundtrip(v: sattrguard3, s: Seq<u8>, at: int)
        requires
            holds_at(s, at, Self::wire(v)),
        ensures
            Self::parse(s, at) == Some((v, at + Self::wire(v).len())),
    {
        reveal(sattrguard3::wire);
        reveal(sattrguard3::parse);
        match v {
            sattrguard3::Void => {
                lemma_roundtrip_bool(false, s, at);
            },
            sattrguard3::obj_ctime(x) => {
                lemma_holds_at_concat(s, at, bool_wire(true), nfstime3::wire(x));
                lemma_roundtrip_bool(true, s, at);
                nfstime3::lemma_roundtrip(x, s, at + 4);
            },
        }
    }

    /// Appends the encoding of the value to `out`.
    pub fn serialize(&self, out: &mut Vec<u8>)
        ensures
            final(out)@ == old(out)@ + Self::wire(*self),
    {
        proof {
            reveal(sattrguard3::wire);
        }
        match self {
            sattrguard3::Void => {
                encode_bool(false, out);
            },
            sattrguard3::obj_ctime(x) => {
                encode_bool(true, out);
                x.serialize(out);
                assert(out@ =~= old(out)@ + Self::wire(*self));
            },
        }
    }

    /// Decodes a value at the offset `at` of `input`, and returns it with the
    /// offset behind it.
    pub fn deserialize(input: &[u8], at: usize) -> (r: Result<(sattrguard3, usize), DecodeError>)
        ensures
            match Self::parse(input@, at as int) {
                Some((v, end)) => r matches Ok(p) && p.0 == v && p.1 == end && end <= input@.len(),
                None => r is Err,
            },
    {
        proof {
            reveal(sattrguard3::parse);
        }
        let (present, at) = decode_bool(input, at)?;
        if present {
            let (x, at) = nfstime3::deserialize(input, at)?;
            Ok((sattrguard3::obj_ctime(x), at))
        } else {
            Ok((sattrguard3::Void, at))
        }
    }
}

impl Default for sattrguard3 {
    fn default() -> (r: Self)
        ensures
            r == sattrguard3::Void,
    {
        sattrguard3::Void
    }
}

/// The arguments of SETATTR.
#[derive(Clone, Debug, PartialEq, Eq)]
pub struct SETATTR3args {
    pub object: nfs_fh3,
    pub new_attribute: sattr3,
    pub guard: sattrguard3,
}

/// What a [`SETATTR3args`] holds, as plain values.
pub struct SETATTR3argsView {
    pub object: Seq<u8>,
    pub new_attribute: sattr3,
    pub guard: sattrguard3,
}

impl View for SETATTR3args {
    type V = SETATTR3argsView;

    open spec fn view(&self) -> SETATTR3argsView {
        SETATTR3argsView {
            object: self.object@,
            new_attribute: self.new_attribute,
            guard: self.guard,
        }
    }
}

impl SETATTR3args {
    /// Every length in the value fits the 32 bits that the wire gives it.
    pub open spec fn encodable(v: SETATTR3argsView) -> bool {
        nfs_fh3::encodable(v.object)
    }

    /// The fields one behind the other, in the order of their declaration.
    #[verifier::opaque]
    pub open spec fn wire(v: SETATTR3argsView) -> Seq<u8> {
        nfs_fh3::wire(v.object) + sattr3::wire(v.new_attribute) + sattrguard3::wire(v.guard)
    }

    /// What a decoder reads at the offset `at` of `s`, with the offset behind
    /// it; `None` where a field does not decode.
    #[verifier::opaque]
    pub open spec fn parse(s: Seq<u8>, at: int) -> Option<(SETATTR3argsView, int)> {
        match nfs_fh3::parse(s, at) {
            None => None,
            Some((object, a1)) => match sattr3::parse(s, a1) {
                None => None,
                Some((new_attribute, a2)) => match sattrguard3::parse(s, a2) {
                    None => None,
                    Some((guard, a3)) => Some(
                        (
                            SETATTR3argsView {
                                object,
                                new_attribute,
                                guard,
                            },
                            a3,
                        ),
                    ),
                },
            },
        }
    }

    /// Round trip: wherever the encoding of `v` stands in a buffer, the
    /// decoder reads `v` there and stops right behind it.
    pub proof fn lemma_roundtrip(v: SETATTR3argsView, s: Seq<u8>, at: int)
        requires
            Self::encodable(v),
            holds_at(s, at, Self::wire(v)),
        ensures
            Self::parse(s, at) == Some((v, at + Self::wire(v).len())),
    {
        reveal(SETATTR3args::wire);
        reveal(SETATTR3args::parse);
        let w0 = nfs_fh3::wire(v.object);
        let w1 = sattr3::wire(v.new_attribute);
        let w2 = sattrguard3::wire(v.guard);
        let p1 = w0 + w1;
        lemma_holds_at_concat(s, at, p1, w2);
        lemma_holds_at_concat(s, at, w0, w1);
        nfs_fh3::lemma_roundtrip(v.object, s, at);
        sattr3::lemma_roundtrip(v.new_attribute, s, at + w0.len());
        sattrguard3::lemma_roundtrip(v.guard, s, at + p1.len());
    }

    /// Whether the value has an encoding.
    pub fn fits(&self) -> (b: bool)
        ensures
            b == Self::encodable(self@),
    {
        self.object.fits()
    }

    /// Appends the encoding of the value to `out`.
    pub fn serialize(&self, out: &mut Vec<u8>)
        requires
            Self::encodable(self@),
        ensures
            final(out)@ == old(out)@ + Self::wire(self@),
    {
        proof {
            reveal(SETATTR3args::wire);
        }
        let ghost base = out@;
        self.object.serialize(out);
        self.new_attribute.serialize(out);
        proof {
            lemma_concat_assoc(base, nfs_fh3::wire(self.object@), sattr3::wire(self.new_attribute));
        }
        self.guard.serialize(out);
        proof {
            lemma_concat_assoc(
                base,
                nfs_fh3::wire(self.object@) + sattr3::wire(self.new_attribute),
                sattrguard3::wire(self.guard),
            );
        }
    }

    /// Decodes a value at the offset `at` of `input`, and returns it with the
    /// offset behind it.
    pub fn deserialize(input: &[u8], at: usize) -> (r: Result<(SETATTR3args, usize), DecodeError>)
        ensures
            match Self::parse(input@, at as int) {
                Some((v, end)) => r matches Ok(p) && p.0@ == v && p.1 == end && end <= input@.len(),
                None => r is Err,
            },
    {
        proof {
            reveal(SETATTR3args::parse);
        }
        let (object, at) = nfs_fh3::deserialize(input, at)?;
        let (new_attribute, at) = sattr3::deserialize(input, at)?;
        let (guard, at) = sattrguard3::deserialize(input, at)?;
        Ok((SETATTR3args { object, new_attribute, guard }, at))
    }
}

impl SETATTR3args {
    /// The value with every number zero, every list empty and every choice
    /// at its first arm.
    pub open spec fn zero() -> SETATTR3argsView {
        SETATTR3argsView {
            object: Seq::<u8>::empty(),
            new_attribute: sattr3::zero(),
            guard: sattrguard3::Void,
        }
    }
}

impl Default for SETATTR3args {
    fn default() -> (r: Self)
        ensures
            r@ == Self::zero(),
    {
        SETATTR3args {
            object: nfs_fh3::default(),
            new_attribute: sattr3::default(),
            guard: sattrguard3::default(),
        }
    }
}

/// How CREATE treats a name that exists.
#[derive(Copy, Clone, Debug, PartialEq, Eq, Structural)]
pub enum createmode3 {
    UNCHECKED,
    GUARDED,
    EXCLUSIVE,
}

impl createmode3 {
    /// The number that stands for the variant on the wire.
    pub open spec fn code(self) -> u32 {
        match self {
            createmode3::UNCHECKED => 0,
            createmode3::GUARDED => 1,
            createmode3::EXCLUSIVE => 2,
        }
    }

    /// The variant that a number stands for, if any.
    pub open spec fn from_code(c: u32) -> Option<createmode3> {
        if c == 0 {
            Some(createmode3::UNCHECKED)
        } else if c == 1 {
            Some(createmode3::GUARDED)
        } else if c == 2 {
            Some(createmode3::EXCLUSIVE)
        } else {
            None
        }
    }

    /// Every variant is found again from its number.
    pub proof fn lemma_code_roundtrip(self)
        ensures
            Self::from_code(self.code()) == Some(self),
    {
    }

    /// The number that stands for the variant on the wire.
    pub fn to_u32(self) -> (c: u32)
        ensures
            c == self.code(),
    {
        match self {
            createmode3::UNCHECKED => 0,
            createmode3::GUARDED => 1,
            createmode3::EXCLUSIVE => 2,
        }
    }

    /// The variant that a number stands for, if any.
    pub fn from_u32(c: u32) -> (r: Option<createmode3>)
        ensures
            r == Self::from_code(c),
    {
        if c == 0 {
            Some(createmode3::UNCHECKED)
        } else if c == 1 {
            Some(createmode3::GUARDED)
        } else if c == 2 {
            Some(createmode3::EXCLUSIVE)
        } else {
            None
        }
    }

    /// The number of the variant, as 32 bits.
    pub open spec fn wire(v: createmode3) -> Seq<u8> {
        u32_wire(v.code())
    }

    /// A number that names no variant does not decode.
    pub open spec fn parse(s: Seq<u8>, at: int) -> Option<(createmode3, int)> {
        match parse_u32(s, at) {
            None => None,
            Some((c, end)) => match Self::from_code(c) {
                None => None,
                Some(v) => Some((v, end)),
            },
        }
    }

    /// Round trip: wherever the encoding of `v` stands in a buffer, the
    /// decoder reads `v` there and stops right behind it.
    pub proof fn lemma_roundtrip(v: createmode3, s: Seq<u8>, at: int)
        requires
            holds_at(s, at, Self::wire(v)),
        ensures
            Self::parse(s, at) == Some((v, at + Self::wire(v).len())),
    {
        lemma_roundtrip_u32(v.code(), s, at);
    }

    /// Appends the encoding of the value to `out`.
    pub fn serialize(&self, out: &mut Vec<u8>)
        ensures
            final(out)@ == old(out)@ + Self::wire(*self),
    {
        encode_u32(self.to_u32(), out);
    }

    /// Decodes a value at the offset `at` of `input`, and returns it with the
    /// offset behind it.
    pub fn deserialize(input: &[u8], at: usize) -> (r: Result<(createmode3, usize), DecodeError>)
        ensures
            match Self::parse(input@, at as int) {
                Some((v, end)) => r matches Ok(p) && p.0 == v && p.1 == end && end <= input@.len(),
                None => r is Err,
            },
    {
        let (c, end) = decode_u32(input, at)?;
        match Self::from_u32(c) {
            Some(v) => Ok((v, end)),
            None => Err(DecodeError {  }),
        }
    }
}

impl Default for createmode3 {
    fn default() -> (r: Self)
        ensures
            r == createmode3::UNCHECKED,
    {
        createmode3::UNCHECKED
    }
}

/// The attributes of a file take 84 bytes on the wire.
pub proof fn lemma_fattr3_len(attr: fattr3)
    ensures
        fattr3::wire(attr).len() == 84,
{
    reveal(fattr3::wire);
    reveal(specdata3::wire);
    reveal(nfstime3::wire);
}

/// Attributes behind an operation take 88 bytes on the wire, and 4 where
/// there are none.
pub proof fn lemma_post_op_attr_len(attr: post_op_attr)
    ensures
        post_op_attr::wire(attr).len() == if attr is Void {
            4int
        } else {
            88int
        },
{
    reveal(post_op_attr::wire);
    match attr {
        post_op_attr::Void => {},
        post_op_attr::attributes(a) => {
            lemma_fattr3_len(a);
        },
    }
}

} // verus!
