//! LINK: make a hard link.

use crate::protocol::nfs::v3::{is_read_write, status, status_body, status_of, wcc, wcc_between};
use crate::protocol::rpc::{
    answers_call, handled, result_reply, send_result, Context, Outcome, RpcError,
};
use crate::protocol::xdr::nfs3::{fattr3, nfsstat3, post_op_attr, wcc_data, LINK3args};
use crate::vfs::{post_op, post_op_of, resolve_handle, served, Capabilities, NFSFileSystem, Served};
use vstd::prelude::*;

verus! {

/// The result of a LINK that was refused before it looked at the file:
/// the status, no attributes of the file, and none of the directory.
pub open spec fn link_refusal(stat: nfsstat3) -> Seq<u8> {
    nfsstat3::wire(stat) + post_op_attr::wire(post_op_attr::Void) + wcc_data::wire(
        wcc_data::zero(),
    )
}

/// The result of a LINK that was refused before it looked at the file.
pub fn refuse_link(stat: nfsstat3) -> (body: Vec<u8>)
    ensures
        body@ == link_refusal(stat),
{
    let mut body = status_body(stat);
    post_op_attr::Void.serialize(&mut body);
    wcc_data::default().serialize(&mut body);
    body
}

/// The attributes of the file that LINK reports: behind a link that
/// was made those that `link` returned, behind one that was not those
/// that `getattr` then gave.
pub open spec fn linked_file(
    linked: Result<fattr3, nfsstat3>,
    file_attr: Result<fattr3, nfsstat3>,
) -> Result<fattr3, nfsstat3> {
    match linked {
        Ok(attr) => Ok(attr),
        Err(_) => file_attr,
    }
}

/// The result of LINK: the status of the attempt, the attributes of the
/// file, and those of the directory on both sides of the attempt.
pub open spec fn link_result(
    linked: Result<fattr3, nfsstat3>,
    file_attr: Result<fattr3, nfsstat3>,
    before: Result<fattr3, nfsstat3>,
    after: Result<fattr3, nfsstat3>,
) -> Seq<u8> {
    nfsstat3::wire(status_of(linked)) + post_op_attr::wire(
        post_op_of(linked_file(linked, file_attr)),
    ) + wcc_data::wire(wcc_between(before, after))
}

/// The result of LINK, from what `link` answered, what `getattr`
/// answered of the file, and of the directory before and after. Where
/// the link was made, `file_attr` is of no account.
pub fn link_body(
    linked: &Result<fattr3, nfsstat3>,
    file_attr: &Result<fattr3, nfsstat3>,
    before: &Result<fattr3, nfsstat3>,
    after: &Result<fattr3, nfsstat3>,
) -> (body: Vec<u8>)
    ensures
        body@ == link_result(*linked, *file_attr, *before, *after),
{
    let file = match linked {
        Ok(attr) => post_op_attr::attributes(*attr),
        Err(_) => post_op(file_attr),
    };
    let mut body = status_body(status(linked));
    file.serialize(&mut body);
    wcc(before, after).serialize(&mut body);
    body
}

/// What the file system said of its files while a LINK was handled.
pub struct LinkAnswers {
    /// The attributes of the directory before the attempt.
    pub before: Result<fattr3, nfsstat3>,
    /// The attributes that `link` returned.
    pub linked: Result<fattr3, nfsstat3>,
    /// The attributes of the file after a link that failed.
    pub file_attr: Result<fattr3, nfsstat3>,
    /// The attributes of the directory after the attempt.
    pub after: Result<fattr3, nfsstat3>,
}

/// What LINK does with a request. A read-only file system refuses before
/// the arguments are looked at, and nothing is touched where one of the
/// handles does not resolve. Every other request is answered with
/// [`link_result`].
pub open spec fn link_outcome(
    xid: u32,
    input: Seq<u8>,
    fs: Served,
    a: LinkAnswers,
) -> Outcome {
    if fs.caps != Capabilities::ReadWrite {
        Ok(result_reply(xid, link_refusal(nfsstat3::NFS3ERR_ROFS)))
    } else {
        match LINK3args::parse(input, 0) {
            None => Err(RpcError::Decode),
            Some((args, _)) => match resolve_handle(fs.generation, args.file) {
                Err(stat) => Ok(result_reply(xid, link_refusal(stat))),
                Ok(_) => match resolve_handle(fs.generation, args.link.dir) {
                    Err(stat) => Ok(result_reply(xid, link_refusal(stat))),
                    Ok(_) => Ok(
                        result_reply(xid, link_result(a.linked, a.file_attr, a.before, a.after)),
                    ),
                },
            },
        }
    }
}

/// Handles a LINK call: resolves both handles, asks for the attributes of
/// the directory, makes the link, asks for the attributes of the file
/// where that failed, and of the directory again, and replies what
/// [`link_outcome`] gives.
pub fn nfsproc3_link<V: NFSFileSystem>(
    xid: u32,
    input: &[u8],
    output: &mut Vec<u8>,
    context: &Context<V>,
) -> (r: Result<(), RpcError>)
    ensures
        exists|a: LinkAnswers|
            handled(
                old(output)@,
                final(output)@,
                r,
                #[trigger] link_outcome(xid, input@, served(&context.vfs), a),
            ),
        context.vfs.caps_of() != Capabilities::ReadWrite ==> final(output)@ == old(output)@
            + result_reply(xid, link_refusal(nfsstat3::NFS3ERR_ROFS)),
        context.vfs.caps_of() == Capabilities::ReadWrite ==> match LINK3args::parse(input@, 0) {
            Some((args, _)) => match resolve_handle(context.vfs.generation_of(), args.file) {
                Err(stat) => final(output)@ == old(output)@ + result_reply(
                    xid,
                    link_refusal(stat),
                ),
                Ok(_) => match resolve_handle(context.vfs.generation_of(), args.link.dir) {
                    Err(stat) => final(output)@ == old(output)@ + result_reply(
                        xid,
                        link_refusal(stat),
                    ),
                    Ok(_) => true,
                },
            },
            None => true,
        },
        r is Err <==> (context.vfs.caps_of() == Capabilities::ReadWrite
            && LINK3args::parse(input@, 0) is None),
        r is Err ==> r == Err::<(), RpcError>(RpcError::Decode),
        r is Ok ==> answers_call(old(output)@, final(output)@, xid),
        r is Err ==> final(output)@ == old(output)@,
{
    let ghost fs = served(&context.vfs);
    let ghost mut a = LinkAnswers {
        before: Err(nfsstat3::NFS3_OK),
        linked: Err(nfsstat3::NFS3_OK),
        file_attr: Err(nfsstat3::NFS3_OK),
        after: Err(nfsstat3::NFS3_OK),
    };
    let caps = context.vfs.capabilities();
    if !is_read_write(caps) {
        let body = refuse_link(nfsstat3::NFS3ERR_ROFS);
        send_result(xid, &body, output);
        assert(handled(
            old(output)@,
            output@,
            Ok::<(), RpcError>(()),
            link_outcome(xid, input@, fs, a),
        ));
        return Ok(());
    }
    let args = match LINK3args::deserialize(input, 0) {
        Ok((args, _)) => args,
        Err(_) => {
            assert(handled(
                old(output)@,
                output@,
                Err::<(), RpcError>(RpcError::Decode),
                link_outcome(xid, input@, fs, a),
            ));
            return Err(RpcError::Decode);
        },
    };
    let body = match context.vfs.fh_to_id(&args.file) {
        Err(stat) => refuse_link(stat),
        Ok(fileid) => {
            match context.vfs.fh_to_id(&args.link.dir) {
                Err(stat) => refuse_link(stat),
                Ok(dirid) => {
                    let before = context.vfs.getattr(dirid);
                    let linked = context.vfs.link(fileid, dirid, &args.link.name);
                    let file_attr = match linked {
                        Ok(_) => linked,
                        Err(_) => context.vfs.getattr(fileid),
                    };
                    let after = context.vfs.getattr(dirid);
                    proof {
                        a.before = before;
                        a.linked = linked;
                        a.file_attr = file_attr;
                        a.after = after;
                    }
                    link_body(&linked, &file_attr, &before, &after)
                },
            }
        },
    };
    send_result(xid, &body, output);
    assert(handled(
        old(output)@,
        output@,
        Ok::<(), RpcError>(()),
        link_outcome(xid, input@, fs, a),
    ));
    Ok(())
}

} // verus!
