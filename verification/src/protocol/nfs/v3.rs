//! The procedures of NFS version 3 (RFC 1813).
//!
//! A handler decodes the arguments of a call, resolves the handles in
//! them, asks the file system, and appends its reply to the output.
//!
//! What a handler replies is a function of the request, of what stays
//! the same of the file system (what it allows, and its generation), and
//! of what the file system answered of its files. Each handler comes
//! with that function, `x_outcome`, and is proved to reply what it
//! gives, whatever the file system answers. The result itself is put
//! together by a function of its own, `x_body`, that takes the answers
//! as arguments.

use crate::protocol::rpc::{answers_call, handled, result_reply, send_message, Context, RpcError};
use crate::protocol::xdr::{lemma_holds_at_concat, lemma_holds_at_self};
use crate::protocol::xdr::nfs3::{
    fattr3, fileid3, nfs_fh3, nfsstat3, post_op_attr, post_op_fh3, post_op_fh3View, pre_op_attr,
    wcc_attr, wcc_data, NFSProgram, VERSION,
};
use crate::protocol::xdr::rpc::{
    accept_body, accepted_msg, call_body, lemma_success_reply_len, mismatch_info,
    proc_unavail_reply_message, prog_mismatch_reply_message, rpc_msg, success_reply_wire,
};
use crate::vfs::{handle_bytes, post_op_of, served, Capabilities, NFSFileSystem, Served};
use vstd::prelude::*;

pub mod access;
pub mod commit;
pub mod create;
pub mod fsinfo;
pub mod fsstat;
pub mod getattr;
pub mod link;
pub mod lookup;
pub mod mkdir;
pub mod mknod;
pub mod null;
pub mod pathconf;
pub mod read;
pub mod readdir;
pub mod readdirplus;
pub mod readlink;
pub mod remove;
pub mod rename;
pub mod setattr;
pub mod symlink;
pub mod write;

pub use access::nfsproc3_access;
pub use commit::nfsproc3_commit;
pub use create::nfsproc3_create;
pub use fsinfo::nfsproc3_fsinfo;
pub use fsstat::nfsproc3_fsstat;
pub use getattr::nfsproc3_getattr;
pub use link::nfsproc3_link;
pub use lookup::nfsproc3_lookup;
pub use mkdir::nfsproc3_mkdir;
pub use mknod::nfsproc3_mknod;
pub use null::nfsproc3_null;
pub use pathconf::nfsproc3_pathconf;
pub use read::nfsproc3_read;
pub use readdir::nfsproc3_readdir;
pub use readdirplus::nfsproc3_readdirplus;
pub use readlink::nfsproc3_readlink;
pub use remove::nfsproc3_remove;
pub use rename::nfsproc3_rename;
pub use setattr::nfsproc3_setattr;
pub use symlink::nfsproc3_symlink;
pub use write::nfsproc3_write;

verus! {

/// The handler of an NFS call did what the procedure asks: for some
/// answers of the file system, what the function of that procedure
/// gives. RMDIR is handled as REMOVE is. A version other than 3 is
/// answered with the version that is served; a number that names no
/// procedure, with `PROC_UNAVAIL`.
pub open spec fn nfs_handled(
    xid: u32,
    vers: u32,
    proc: u32,
    input: Seq<u8>,
    fs: Served,
    before: Seq<u8>,
    after: Seq<u8>,
    r: Result<(), RpcError>,
) -> bool {
    if vers != VERSION {
        handled(
            before,
            after,
            r,
            Ok(
                rpc_msg::wire(
                    accepted_msg(
                        xid,
                        accept_body::PROG_MISMATCH(mismatch_info { low: VERSION, high: VERSION }),
                    ),
                ),
            ),
        )
    } else {
        match NFSProgram::from_code(proc) {
            Some(NFSProgram::NFSPROC3_NULL) => handled(
                before,
                after,
                r,
                Ok(result_reply(xid, Seq::empty())),
            ),
            Some(NFSProgram::NFSPROC3_GETATTR) => exists|a: getattr::GetattrAnswers|
                handled(before, after, r, #[trigger] getattr::getattr_outcome(xid, input, fs, a)),
            Some(NFSProgram::NFSPROC3_SETATTR) => exists|a: setattr::SetattrAnswers|
                handled(before, after, r, #[trigger] setattr::setattr_outcome(xid, input, fs, a)),
            Some(NFSProgram::NFSPROC3_LOOKUP) => exists|a: lookup::LookupAnswers|
                handled(before, after, r, #[trigger] lookup::lookup_outcome(xid, input, fs, a)),
            Some(NFSProgram::NFSPROC3_ACCESS) => exists|a: access::AccessAnswers|
                handled(before, after, r, #[trigger] access::access_outcome(xid, input, fs, a)),
            Some(NFSProgram::NFSPROC3_READLINK) => exists|a: readlink::ReadlinkAnswers|
                handled(before, after, r, #[trigger] readlink::readlink_outcome(xid, input, fs, a)),
            Some(NFSProgram::NFSPROC3_READ) => exists|a: read::ReadAnswers|
                handled(before, after, r, #[trigger] read::read_outcome(xid, input, fs, a)),
            Some(NFSProgram::NFSPROC3_WRITE) => exists|a: write::WriteAnswers|
                handled(before, after, r, #[trigger] write::write_outcome(xid, input, fs, a)),
            Some(NFSProgram::NFSPROC3_CREATE) => exists|a: create::CreateAnswers|
                handled(before, after, r, #[trigger] create::create_outcome(xid, input, fs, a)),
            Some(NFSProgram::NFSPROC3_MKDIR) => exists|a: mkdir::MkdirAnswers|
                handled(before, after, r, #[trigger] mkdir::mkdir_outcome(xid, input, fs, a)),
            Some(NFSProgram::NFSPROC3_SYMLINK) => exists|a: symlink::SymlinkAnswers|
                handled(before, after, r, #[trigger] symlink::symlink_outcome(xid, input, fs, a)),
            Some(NFSProgram::NFSPROC3_MKNOD) => exists|a: mknod::MknodAnswers|
                handled(before, after, r, #[trigger] mknod::mknod_outcome(xid, input, fs, a)),
            Some(NFSProgram::NFSPROC3_REMOVE) => exists|a: remove::RemoveAnswers|
                handled(before, after, r, #[trigger] remove::remove_outcome(xid, input, fs, a)),
            Some(NFSProgram::NFSPROC3_RMDIR) => exists|a: remove::RemoveAnswers|
                handled(before, after, r, #[trigger] remove::remove_outcome(xid, input, fs, a)),
            Some(NFSProgram::NFSPROC3_RENAME) => exists|a: rename::RenameAnswers|
                handled(before, after, r, #[trigger] rename::rename_outcome(xid, input, fs, a)),
            Some(NFSProgram::NFSPROC3_LINK) => exists|a: link::LinkAnswers|
                handled(before, after, r, #[trigger] link::link_outcome(xid, input, fs, a)),
            Some(NFSProgram::NFSPROC3_READDIR) => exists|a: readdir::ReaddirAnswers|
                handled(before, after, r, #[trigger] readdir::readdir_outcome(xid, input, fs, a)),
            Some(NFSProgram::NFSPROC3_READDIRPLUS) => exists|a: readdirplus::ReaddirplusAnswers|
                handled(
                    before,
                    after,
                    r,
                    #[trigger] readdirplus::readdirplus_outcome(xid, input, fs, a),
                ),
            Some(NFSProgram::NFSPROC3_FSSTAT) => exists|a: fsstat::FsstatAnswers|
                handled(before, after, r, #[trigger] fsstat::fsstat_outcome(xid, input, fs, a)),
            Some(NFSProgram::NFSPROC3_FSINFO) => exists|a: fsinfo::FsinfoAnswers|
                handled(before, after, r, #[trigger] fsinfo::fsinfo_outcome(xid, input, fs, a)),
            Some(NFSProgram::NFSPROC3_PATHCONF) => exists|a: pathconf::PathconfAnswers|
                handled(before, after, r, #[trigger] pathconf::pathconf_outcome(xid, input, fs, a)),
            Some(NFSProgram::NFSPROC3_COMMIT) => exists|a: commit::CommitAnswers|
                handled(before, after, r, #[trigger] commit::commit_outcome(xid, input, fs, a)),
            _ => handled(
                before,
                after,
                r,
                Ok(rpc_msg::wire(accepted_msg(xid, accept_body::PROC_UNAVAIL))),
            ),
        }
    }
}

/// Handles a call to the NFS program: has the handler of the procedure
/// answer it.
pub fn handle_nfs<V: NFSFileSystem>(
    xid: u32,
    call: &call_body,
    input: &[u8],
    output: &mut Vec<u8>,
    context: &Context<V>,
) -> (r: Result<(), RpcError>)
    ensures
        nfs_handled(
            xid,
            call.vers,
            call.proc,
            input@,
            served(&context.vfs),
            old(output)@,
            final(output)@,
            r,
        ),
        r is Ok ==> answers_call(old(output)@, final(output)@, xid),
        r is Err ==> final(output)@ == old(output)@,
{
    if call.vers != VERSION {
        send_message(&prog_mismatch_reply_message(xid, VERSION), output);
        return Ok(());
    }
    let procedure = match NFSProgram::from_u32(call.proc) {
        Some(p) => p,
        None => NFSProgram::INVALID,
    };
    match procedure {
        NFSProgram::NFSPROC3_NULL => nfsproc3_null(xid, input, output),
        NFSProgram::NFSPROC3_GETATTR => nfsproc3_getattr(xid, input, output, context),
        NFSProgram::NFSPROC3_SETATTR => nfsproc3_setattr(xid, input, output, context),
        NFSProgram::NFSPROC3_LOOKUP => nfsproc3_lookup(xid, input, output, context),
        NFSProgram::NFSPROC3_ACCESS => nfsproc3_access(xid, input, output, context),
        NFSProgram::NFSPROC3_READLINK => nfsproc3_readlink(xid, input, output, context),
        NFSProgram::NFSPROC3_READ => nfsproc3_read(xid, input, output, context),
        NFSProgram::NFSPROC3_WRITE => nfsproc3_write(xid, input, output, context),
        NFSProgram::NFSPROC3_CREATE => nfsproc3_create(xid, input, output, context),
        NFSProgram::NFSPROC3_MKDIR => nfsproc3_mkdir(xid, input, output, context),
        NFSProgram::NFSPROC3_SYMLINK => nfsproc3_symlink(xid, input, output, context),
        NFSProgram::NFSPROC3_MKNOD => nfsproc3_mknod(xid, input, output, context),
        NFSProgram::NFSPROC3_REMOVE => nfsproc3_remove(xid, input, output, context),
        NFSProgram::NFSPROC3_RMDIR => nfsproc3_remove(xid, input, output, context),
        NFSProgram::NFSPROC3_RENAME => nfsproc3_rename(xid, input, output, context),
        NFSProgram::NFSPROC3_LINK => nfsproc3_link(xid, input, output, context),
        NFSProgram::NFSPROC3_READDIR => nfsproc3_readdir(xid, input, output, context),
        NFSProgram::NFSPROC3_READDIRPLUS => nfsproc3_readdirplus(xid, input, output, context),
        NFSProgram::NFSPROC3_FSSTAT => nfsproc3_fsstat(xid, input, output, context),
        NFSProgram::NFSPROC3_FSINFO => nfsproc3_fsinfo(xid, input, output, context),
        NFSProgram::NFSPROC3_PATHCONF => nfsproc3_pathconf(xid, input, output, context),
        NFSProgram::NFSPROC3_COMMIT => nfsproc3_commit(xid, input, output, context),
        NFSProgram::INVALID => {
            send_message(&proc_unavail_reply_message(xid), output);
            Ok(())
        },
    }
}

/// A result that holds a status and nothing else.
pub fn status_body(stat: nfsstat3) -> (body: Vec<u8>)
    ensures
        body@ == nfsstat3::wire(stat),
{
    let mut body: Vec<u8> = Vec::new();
    stat.serialize(&mut body);
    assert(body@ =~= nfsstat3::wire(stat));
    body
}

/// The status of an answer: `NFS3_OK` for one that succeeded.
pub open spec fn status_of<T>(answer: Result<T, nfsstat3>) -> nfsstat3 {
    match answer {
        Ok(_) => nfsstat3::NFS3_OK,
        Err(stat) => stat,
    }
}

/// The status of an answer.
pub fn status<T>(answer: &Result<T, nfsstat3>) -> (stat: nfsstat3)
    ensures
        stat == status_of(*answer),
{
    match answer {
        Ok(_) => nfsstat3::NFS3_OK,
        Err(stat) => *stat,
    }
}

/// The result of a procedure that reads an object and was refused: the
/// status, and no attributes.
pub open spec fn refusal_attr(stat: nfsstat3) -> Seq<u8> {
    nfsstat3::wire(stat) + post_op_attr::wire(post_op_attr::Void)
}

/// The result of a procedure that reads an object and was refused.
pub fn refuse_attr(stat: nfsstat3) -> (body: Vec<u8>)
    ensures
        body@ == refusal_attr(stat),
{
    let mut body = status_body(stat);
    post_op_attr::Void.serialize(&mut body);
    body
}

/// The result of a procedure that tried to change an object: the status
/// of the attempt, and the attributes of the object on both sides of it,
/// each void where the file system gave none.
pub open spec fn change_result(
    stat: nfsstat3,
    before: Result<fattr3, nfsstat3>,
    after: Result<fattr3, nfsstat3>,
) -> Seq<u8> {
    nfsstat3::wire(stat) + wcc_data::wire(wcc_between(before, after))
}

/// The result of a procedure that tried to change an object.
pub fn change_body(
    stat: nfsstat3,
    before: &Result<fattr3, nfsstat3>,
    after: &Result<fattr3, nfsstat3>,
) -> (body: Vec<u8>)
    ensures
        body@ == change_result(stat, *before, *after),
{
    let mut body = status_body(stat);
    wcc(before, after).serialize(&mut body);
    body
}

/// What came of an attempt to make an object, as plain values: its
/// handle and attributes, or why there is none.
pub open spec fn made_view(made: Result<(nfs_fh3, post_op_attr), nfsstat3>) -> Result<
    (Seq<u8>, post_op_attr),
    nfsstat3,
> {
    match made {
        Ok((handle, attr)) => Ok((handle@, attr)),
        Err(stat) => Err(stat),
    }
}

/// The result of a procedure that tried to make an object in a
/// directory. For an object that was made it holds the handle and the
/// attributes of the object; either way it holds the attributes of the
/// directory on both sides of the attempt.
pub open spec fn made_result(
    made: Result<(Seq<u8>, post_op_attr), nfsstat3>,
    before: Result<fattr3, nfsstat3>,
    after: Result<fattr3, nfsstat3>,
) -> Seq<u8> {
    match made {
        Ok((handle, attr)) => creation_result(handle, attr, wcc_between(before, after)),
        Err(stat) => change_result(stat, before, after),
    }
}

/// The result of a procedure that tried to make an object in a
/// directory.
pub fn made_body(
    made: Result<(nfs_fh3, post_op_attr), nfsstat3>,
    before: &Result<fattr3, nfsstat3>,
    after: &Result<fattr3, nfsstat3>,
) -> (body: Vec<u8>)
    requires
        made matches Ok(m) ==> nfs_fh3::encodable(m.0@),
    ensures
        body@ == made_result(made_view(made), *before, *after),
{
    match made {
        Ok((handle, attr)) => created_body(handle, attr, wcc(before, after)),
        Err(stat) => change_body(stat, before, after),
    }
}

/// The object that a procedure made, with the handle that clients know
/// it by in the generation `generation`.
pub open spec fn with_handle(
    generation: u64,
    made: Result<(fileid3, post_op_attr), nfsstat3>,
) -> Result<(Seq<u8>, post_op_attr), nfsstat3> {
    match made {
        Ok((id, attr)) => Ok((handle_bytes(generation, id), attr)),
        Err(stat) => Err(stat),
    }
}

/// The result of a procedure that changes an object and was refused
/// before it looked at the object: the status, and no attributes on
/// either side.
pub open spec fn refusal_wcc(stat: nfsstat3) -> Seq<u8> {
    nfsstat3::wire(stat) + wcc_data::wire(wcc_data::zero())
}

/// The result of a procedure that was refused before it looked at the
/// object.
pub fn refuse_wcc(stat: nfsstat3) -> (body: Vec<u8>)
    ensures
        body@ == refusal_wcc(stat),
{
    let mut body = status_body(stat);
    wcc_data::default().serialize(&mut body);
    body
}

/// The result of a procedure that made an object: its handle and
/// attributes, and the attributes of the directory on both sides.
pub open spec fn creation_result(handle: Seq<u8>, attr: post_op_attr, dir: wcc_data) -> Seq<u8> {
    nfsstat3::wire(nfsstat3::NFS3_OK) + post_op_fh3::wire(post_op_fh3View::handle(handle))
        + post_op_attr::wire(attr) + wcc_data::wire(dir)
}

/// The result of a procedure that made an object.
pub fn created_body(handle: nfs_fh3, attr: post_op_attr, dir: wcc_data) -> (body: Vec<u8>)
    requires
        nfs_fh3::encodable(handle@),
    ensures
        body@ == creation_result(handle@, attr, dir),
{
    let mut body = status_body(nfsstat3::NFS3_OK);
    post_op_fh3::handle(handle).serialize(&mut body);
    attr.serialize(&mut body);
    dir.serialize(&mut body);
    body
}

/// Whether the file system takes changes.
pub fn is_read_write(caps: Capabilities) -> (b: bool)
    ensures
        b == (caps == Capabilities::ReadWrite),
{
    match caps {
        Capabilities::ReadWrite => true,
        Capabilities::ReadOnly => false,
    }
}

/// The part of the attributes by which a client tells whether an object
/// changed behind its back.
pub open spec fn wcc_attr_of(attr: fattr3) -> wcc_attr {
    wcc_attr { size: attr.size, mtime: attr.mtime, ctime: attr.ctime }
}

/// The attributes that a reply carries from before an operation: size
/// and times as the file system gave them, or none where it gave an
/// error.
pub open spec fn pre_op_of(attr: Result<fattr3, nfsstat3>) -> pre_op_attr {
    match attr {
        Ok(a) => pre_op_attr::attributes(wcc_attr_of(a)),
        Err(_) => pre_op_attr::Void,
    }
}

/// The attributes of an object on both sides of an operation, from what
/// the file system said of it before and after.
pub open spec fn wcc_between(
    before: Result<fattr3, nfsstat3>,
    after: Result<fattr3, nfsstat3>,
) -> wcc_data {
    wcc_data { before: pre_op_of(before), after: post_op_of(after) }
}

/// A reply to a procedure that changes an object holds, behind its
/// status, the attributes on both sides of the change: they decode to
/// what the file system said before and after.
pub proof fn lemma_reply_reports_both_sides(
    xid: u32,
    stat: nfsstat3,
    before: Result<fattr3, nfsstat3>,
    after: Result<fattr3, nfsstat3>,
)
    ensures
        ({
            let reply = result_reply(
                xid,
                nfsstat3::wire(stat) + wcc_data::wire(wcc_between(before, after)),
            );
            &&& nfsstat3::parse(reply, 24) == Some((stat, 28int))
            &&& wcc_data::parse(reply, 28) == Some((wcc_between(before, after), reply.len() as int))
        }),
{
    let env = success_reply_wire(xid);
    let status = nfsstat3::wire(stat);
    let sides = wcc_data::wire(wcc_between(before, after));
    let reply = result_reply(xid, status + sides);
    lemma_success_reply_len(xid);
    lemma_holds_at_self(reply);
    lemma_holds_at_concat(reply, 0, env, status + sides);
    lemma_holds_at_concat(reply, 24, status, sides);
    nfsstat3::lemma_roundtrip(stat, reply, 24);
    wcc_data::lemma_roundtrip(wcc_between(before, after), reply, 28);
}

/// A reply to a procedure that made an object holds, behind the handle
/// and the attributes of the object, the attributes of the directory on
/// both sides: they decode to what the file system said before and
/// after.
pub proof fn lemma_creation_reports_both_sides(
    xid: u32,
    handle: Seq<u8>,
    attr: post_op_attr,
    before: Result<fattr3, nfsstat3>,
    after: Result<fattr3, nfsstat3>,
)
    requires
        nfs_fh3::encodable(handle),
    ensures
        ({
            let reply = result_reply(
                xid,
                creation_result(handle, attr, wcc_between(before, after)),
            );
            let made = post_op_fh3::wire(post_op_fh3View::handle(handle));
            let obj_at = 28 + made.len() as int;
            let dir_at = obj_at + post_op_attr::wire(attr).len() as int;
            &&& nfsstat3::parse(reply, 24) == Some((nfsstat3::NFS3_OK, 28int))
            &&& post_op_fh3::parse(reply, 28) == Some((post_op_fh3View::handle(handle), obj_at))
            &&& post_op_attr::parse(reply, obj_at) == Some((attr, dir_at))
            &&& wcc_data::parse(reply, dir_at) == Some(
                (wcc_between(before, after), reply.len() as int),
            )
        }),
{
    let env = success_reply_wire(xid);
    let status = nfsstat3::wire(nfsstat3::NFS3_OK);
    let made = post_op_fh3::wire(post_op_fh3View::handle(handle));
    let obj = post_op_attr::wire(attr);
    let sides = wcc_data::wire(wcc_between(before, after));
    let reply = result_reply(xid, creation_result(handle, attr, wcc_between(before, after)));
    lemma_success_reply_len(xid);
    lemma_holds_at_self(reply);
    lemma_holds_at_concat(reply, 0, env, status + made + obj + sides);
    lemma_holds_at_concat(reply, 24, status + made + obj, sides);
    lemma_holds_at_concat(reply, 24, status + made, obj);
    lemma_holds_at_concat(reply, 24, status, made);
    nfsstat3::lemma_roundtrip(nfsstat3::NFS3_OK, reply, 24);
    post_op_fh3::lemma_roundtrip(post_op_fh3View::handle(handle), reply, 28);
    post_op_attr::lemma_roundtrip(attr, reply, 28 + made.len() as int);
    wcc_data::lemma_roundtrip(
        wcc_between(before, after),
        reply,
        28 + made.len() as int + obj.len() as int,
    );
}

/// The attributes that a reply carries from before an operation.
pub fn pre_op(attr: &Result<fattr3, nfsstat3>) -> (r: pre_op_attr)
    ensures
        r == pre_op_of(*attr),
{
    match attr {
        Ok(a) => pre_op_attr::attributes(wcc_attr { size: a.size, mtime: a.mtime, ctime: a.ctime }),
        Err(_) => pre_op_attr::Void,
    }
}

/// The attributes of an object on both sides of an operation.
pub fn wcc(before: &Result<fattr3, nfsstat3>, after: &Result<fattr3, nfsstat3>) -> (r: wcc_data)
    ensures
        r == wcc_between(*before, *after),
{
    wcc_data { before: pre_op(before), after: crate::vfs::post_op(after) }
}

/// Weak cache consistency: the attributes in front are the size, the
/// modification time and the change time that the file system gave
/// before the operation, those behind are the attributes that it gave
/// after, and each side is void exactly where the file system gave none.
pub proof fn lemma_wcc_reports_both_sides(
    before: Result<fattr3, nfsstat3>,
    after: Result<fattr3, nfsstat3>,
)
    ensures
        before matches Ok(b) ==> wcc_between(before, after).before == pre_op_attr::attributes(
            wcc_attr { size: b.size, mtime: b.mtime, ctime: b.ctime },
        ),
        before is Err ==> wcc_between(before, after).before == pre_op_attr::Void,
        after matches Ok(a) ==> wcc_between(before, after).after == post_op_attr::attributes(a),
        after is Err ==> wcc_between(before, after).after == post_op_attr::Void,
{
}

} // verus!
