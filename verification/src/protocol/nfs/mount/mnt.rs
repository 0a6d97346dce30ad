//! MOUNTPROC3_MNT: the handle of the exported directory, or of one
//! below it.

use crate::protocol::rpc::{
    answers_call, handled, result_reply, send_result, Context, Outcome, RpcError,
};
use crate::protocol::xdr::{decode_opaque, parse_opaque};
use crate::protocol::xdr::mount::{mountres3_ok, mountres3_okView, mountstat3};
use crate::protocol::xdr::nfs3::{fileid3, nfs_fh3, nfsstat3};
use crate::vfs::{handle_bytes, path_components, served, NFSFileSystem, Served};
use vstd::prelude::*;
use vstd::string::StringSliceAdditionalSpecFns;
use vstd::utf8::{decode_utf8, encode_utf8, valid_utf8};

verus! {

// ---------------------------------------------------------------------
// the path that a client asks for
// ---------------------------------------------------------------------

/// `s` without the characters at its front that are `c`.
pub open spec fn without_leading(s: Seq<char>, c: char) -> Seq<char>
    decreases s.len(),
{
    if s.len() > 0 && s[0] == c {
        without_leading(s.drop_first(), c)
    } else {
        s
    }
}

/// `s` without the characters at its end that are `c`.
pub open spec fn without_trailing(s: Seq<char>, c: char) -> Seq<char>
    decreases s.len(),
{
    if s.len() > 0 && s.last() == c {
        without_trailing(s.drop_last(), c)
    } else {
        s
    }
}

/// The characters that Unicode counts as white space.
pub open spec fn is_white_space(c: char) -> bool {
    let u = c as u32;
    ||| 0x09 <= u <= 0x0d
    ||| u == 0x20
    ||| u == 0x85
    ||| u == 0xa0
    ||| u == 0x1680
    ||| 0x2000 <= u <= 0x200a
    ||| u == 0x2028
    ||| u == 0x2029
    ||| u == 0x202f
    ||| u == 0x205f
    ||| u == 0x3000
}

/// `s` without the white space at its front.
pub open spec fn without_leading_space(s: Seq<char>) -> Seq<char>
    decreases s.len(),
{
    if s.len() > 0 && is_white_space(s[0]) {
        without_leading_space(s.drop_first())
    } else {
        s
    }
}

/// `s` without the white space at its end.
pub open spec fn without_trailing_space(s: Seq<char>) -> Seq<char>
    decreases s.len(),
{
    if s.len() > 0 && is_white_space(s.last()) {
        without_trailing_space(s.drop_last())
    } else {
        s
    }
}

/// The path below the root of the file system that a client asks for
/// with `dirpath`, or `None` where `dirpath` does not start with the
/// name of the export. What follows the name of the export loses the
/// slashes at its front, then those at its end, then the white space at
/// either end; a slash goes in front. A `dirpath` that is not UTF-8
/// counts as empty.
pub open spec fn requested_path(export_name: Seq<char>, dirpath: Seq<u8>) -> Option<Seq<u8>> {
    let text = if valid_utf8(dirpath) {
        decode_utf8(dirpath)
    } else {
        Seq::<char>::empty()
    };
    if export_name.is_prefix_of(text) {
        let below = text.skip(export_name.len() as int);
        let bare = without_trailing(without_leading(below, '/'), '/');
        Some(seq![0x2fu8] + encode_utf8(without_trailing_space(without_leading_space(bare))))
    } else {
        None
    }
}

/// `core::str::from_utf8`: the bytes as text, if they are UTF-8. The
/// text has the bytes it was made from.
#[verifier::external_body]
fn text_of<'a>(bytes: &'a [u8]) -> (r: Option<&'a str>)
    ensures
        r is Some <==> valid_utf8(bytes@),
        r matches Some(s) ==> s.spec_bytes() == bytes@,
{
    match core::str::from_utf8(bytes) {
        Ok(s) => Some(s),
        Err(_) => None,
    }
}

/// `str::strip_prefix`: what follows `prefix` in `s`, if `s` starts with
/// it.
#[verifier::external_body]
fn strip_prefix<'a>(s: &'a str, prefix: &str) -> (r: Option<&'a str>)
    ensures
        match r {
            Some(rest) => s@ == prefix@ + rest@,
            None => !prefix@.is_prefix_of(s@),
        },
{
    s.strip_prefix(prefix)
}

/// `str::trim_start_matches` with the pattern `'/'`: `s` without the
/// slashes at its front.
#[verifier::external_body]
fn trim_leading_slashes<'a>(s: &'a str) -> (r: &'a str)
    ensures
        r@ == without_leading(s@, '/'),
{
    s.trim_start_matches('/')
}

/// `str::trim_end_matches` with the pattern `'/'`: `s` without the
/// slashes at its end.
#[verifier::external_body]
fn trim_trailing_slashes<'a>(s: &'a str) -> (r: &'a str)
    ensures
        r@ == without_trailing(s@, '/'),
{
    s.trim_end_matches('/')
}

/// `str::trim`: `s` without the white space at its front and at its end,
/// where white space is what Unicode counts as such.
#[verifier::external_body]
fn trim<'a>(s: &'a str) -> (r: &'a str)
    ensures
        r@ == without_trailing_space(without_leading_space(s@)),
{
    s.trim()
}

/// The path below the root of the file system that a client asks for.
pub fn mount_path(export_name: &str, dirpath: &[u8]) -> (r: Option<Vec<u8>>)
    ensures
        match requested_path(export_name@, dirpath@) {
            Some(path) => r matches Some(p) && p@ == path,
            None => r is None,
        },
{
    let text = match text_of(dirpath) {
        Some(text) => {
            proof {
                vstd::utf8::encode_utf8_decode_utf8(text@);
            }
            text
        },
        None => {
            proof {
                reveal_strlit("");
            }
            ""
        },
    };
    match strip_prefix(text, export_name) {
        None => None,
        Some(below) => {
            assert(below@ =~= text@.skip(export_name@.len() as int));
            let bare = trim(trim_trailing_slashes(trim_leading_slashes(below)));
            let mut path: Vec<u8> = Vec::new();
            path.push(0x2f);
            path.extend_from_slice(bare.as_bytes());
            assert(path@ =~= seq![0x2fu8] + bare.spec_bytes());
            Some(path)
        },
    }
}

// ---------------------------------------------------------------------
// the handler
// ---------------------------------------------------------------------

/// The result of MNT: for a directory that was found, `MNT3_OK`, its
/// handle and the two flavors of authentication that the server takes,
/// `AUTH_NULL` and `AUTH_UNIX`; for every other, `MNT3ERR_NOENT`.
pub open spec fn mnt_result(mounted: Option<Seq<u8>>) -> Seq<u8> {
    match mounted {
        Some(handle) => mountstat3::wire(mountstat3::MNT3_OK) + mountres3_ok::wire(
            mountres3_okView { fhandle: handle, auth_flavors: seq![0u32, 1u32] },
        ),
        None => mountstat3::wire(mountstat3::MNT3ERR_NOENT),
    }
}

/// The result of MNT, from the handle of the directory that was found,
/// if one was.
pub fn mnt_body(mounted: Option<nfs_fh3>) -> (body: Vec<u8>)
    requires
        mounted matches Some(handle) ==> nfs_fh3::encodable(handle@),
    ensures
        body@ == mnt_result(
            match mounted {
                Some(handle) => Some(handle@),
                None => None,
            },
        ),
{
    let mut body: Vec<u8> = Vec::new();
    match mounted {
        Some(handle) => {
            let mut auth_flavors: Vec<u32> = Vec::new();
            auth_flavors.push(0);
            auth_flavors.push(1);
            assert(auth_flavors@ =~= seq![0u32, 1u32]);
            let res = mountres3_ok { fhandle: handle.data, auth_flavors };
            mountstat3::MNT3_OK.serialize(&mut body);
            assert(body@ =~= mountstat3::wire(mountstat3::MNT3_OK));
            res.serialize(&mut body);
        },
        None => {
            mountstat3::MNT3ERR_NOENT.serialize(&mut body);
            assert(body@ =~= mountstat3::wire(mountstat3::MNT3ERR_NOENT));
        },
    }
    body
}

/// What the file system said of its files while a MNT was handled.
pub struct MntAnswers {
    /// The directory at the end of the path.
    pub found: Result<fileid3, nfsstat3>,
}

/// The directory that MNT mounts, if any: the client asks for a path
/// below the export, and the file system finds it. A path without names
/// is the root, whatever the file system holds.
pub open spec fn mnt_mounts(
    export_name: Seq<char>,
    input: Seq<u8>,
    root: fileid3,
    a: MntAnswers,
) -> Option<fileid3> {
    match parse_opaque(input, 0) {
        Some((dirpath, _)) => match requested_path(export_name, dirpath) {
            Some(path) => if path_components(path).len() == 0 {
                Some(root)
            } else {
                match a.found {
                    Ok(id) => Some(id),
                    Err(_) => None,
                }
            },
            None => None,
        },
        None => None,
    }
}

/// What MNT does with a request. A path outside the export, and one
/// that the file system does not find, are answered with
/// `MNT3ERR_NOENT`. Otherwise the reply holds the handle that the
/// directory has in the generation of the server.
pub open spec fn mnt_outcome(
    xid: u32,
    export_name: Seq<char>,
    input: Seq<u8>,
    fs: Served,
    a: MntAnswers,
) -> Outcome {
    match parse_opaque(input, 0) {
        None => Err(RpcError::Decode),
        Some(_) => Ok(
            result_reply(
                xid,
                mnt_result(
                    match mnt_mounts(export_name, input, fs.root, a) {
                        Some(id) => Some(handle_bytes(fs.generation, id)),
                        None => None,
                    },
                ),
            ),
        ),
    }
}

/// The handler did what MNT asks, and handed back `true` exactly where
/// it answered with a handle.
pub open spec fn mnt_handled(
    xid: u32,
    export_name: Seq<char>,
    input: Seq<u8>,
    fs: Served,
    a: MntAnswers,
    before: Seq<u8>,
    after: Seq<u8>,
    r: Result<Option<bool>, RpcError>,
) -> bool {
    &&& handled(before, after, r, mnt_outcome(xid, export_name, input, fs, a))
    &&& r matches Ok(signal) ==> signal == if mnt_mounts(export_name, input, fs.root, a)
        is Some {
        Some(true)
    } else {
        None
    }
}

/// Handles a MNT call: works out the path that the client asks for,
/// has the file system walk it from the root, and replies what
/// [`mnt_outcome`] gives. Hands back `true` for a mount.
pub fn mountproc3_mnt<V: NFSFileSystem>(
    xid: u32,
    input: &[u8],
    output: &mut Vec<u8>,
    context: &Context<V>,
) -> (r: Result<Option<bool>, RpcError>)
    ensures
        exists|a: MntAnswers|
            #[trigger] mnt_handled(
                xid,
                context.export_name@,
                input@,
                served(&context.vfs),
                a,
                old(output)@,
                final(output)@,
                r,
            ),
        match parse_opaque(input@, 0) {
            Some((dirpath, _)) => match requested_path(context.export_name@, dirpath) {
                Some(path) => path_components(path).len() == 0 ==> {
                    &&& r == Ok::<Option<bool>, RpcError>(Some(true))
                    &&& final(output)@ == old(output)@ + result_reply(
                        xid,
                        mnt_result(
                            Some(
                                handle_bytes(context.vfs.generation_of(), context.vfs.root_of()),
                            ),
                        ),
                    )
                },
                None => {
                    &&& r == Ok::<Option<bool>, RpcError>(None)
                    &&& final(output)@ == old(output)@ + result_reply(xid, mnt_result(None))
                },
            },
            None => true,
        },
        r is Err <==> parse_opaque(input@, 0) is None,
        r is Err ==> r == Err::<Option<bool>, RpcError>(RpcError::Decode),
        r is Ok ==> answers_call(old(output)@, final(output)@, xid),
        r is Err ==> final(output)@ == old(output)@,
{
    let ghost fs = served(&context.vfs);
    let ghost mut a = MntAnswers { found: Err(nfsstat3::NFS3_OK) };
    let dirpath = match decode_opaque(input, 0) {
        Ok((dirpath, _)) => dirpath,
        Err(_) => {
            assert(mnt_handled(
                xid,
                context.export_name@,
                input@,
                fs,
                a,
                old(output)@,
                output@,
                Err::<Option<bool>, RpcError>(RpcError::Decode),
            ));
            return Err(RpcError::Decode);
        },
    };
    let mounted = match mount_path(context.export_name.as_str(), dirpath.as_slice()) {
        None => None,
        Some(path) => {
            let found = context.vfs.path_to_id(path.as_slice());
            proof {
                a.found = found;
            }
            match found {
                Err(_) => None,
                Ok(id) => Some(context.vfs.id_to_fh(id)),
            }
        },
    };
    let signal = if mounted.is_some() {
        Some(true)
    } else {
        None
    };
    let body = mnt_body(mounted);
    send_result(xid, &body, output);
    assert(mnt_handled(
        xid,
        context.export_name@,
        input@,
        fs,
        a,
        old(output)@,
        output@,
        Ok::<Option<bool>, RpcError>(signal),
    ));
    Ok(signal)
}

} // verus!
