//! READDIRPLUS: the names in a directory with their attributes and
//! handles, page by page.

use crate::protocol::nfs::v3::{refusal_attr, refuse_attr, status_body};
use crate::protocol::nfs::v3::readdir::{
    items_view, listing_head, listing_view, name_bytes, pack_page, page, start_listing, PageItem,
    PageItemView,
};
use crate::protocol::rpc::{
    answers_call, handled, result_reply, send_result, Context, Outcome, RpcError,
};
use crate::protocol::xdr::{bool_wire, encode_bool};
use crate::protocol::xdr::nfs3::{
    entryplus3, entryplus3View, fattr3, nfs_fh3, nfsstat3, nfsstring, post_op_attr, post_op_fh3,
    post_op_fh3View, READDIRPLUS3args,
};
use crate::vfs::{
    handle_bytes, listing_request, post_op, post_op_of, resolve_handle, served, DirEntry,
    DirEntryView, NFSFileSystem, ReadDirResult, ReadDirResultView, Served,
};
use vstd::prelude::*;

verus! {

/// An entry of a READDIRPLUS reply: the file id, the name, the file id
/// once more as the cookie behind which a later request goes on, the
/// attributes of the file, and its handle.
pub open spec fn plus_entry(e: DirEntryView, handle: Seq<u8>) -> entryplus3View {
    entryplus3View {
        fileid: e.fileid,
        name: e.name,
        cookie: e.fileid,
        name_attributes: post_op_attr::attributes(e.attr),
        name_handle: post_op_fh3View::handle(handle),
    }
}

/// An entry as it would go into a READDIRPLUS reply. A name or a handle
/// that is too long for the wire gives the entry no encoding.
pub open spec fn plus_item(e: DirEntryView, handle: Seq<u8>) -> PageItemView {
    if nfsstring::encodable(e.name) {
        PageItemView {
            bytes: if nfs_fh3::encodable(handle) {
                Some(bool_wire(true) + entryplus3::wire(plus_entry(e, handle)))
            } else {
                None
            },
            dir_bytes: name_bytes(e.name),
        }
    } else {
        PageItemView { bytes: None, dir_bytes: 0 }
    }
}

/// The entries of a listing as they would go into a READDIRPLUS reply,
/// each with its handle.
pub open spec fn plus_items(entries: Seq<DirEntryView>, handles: Seq<Seq<u8>>) -> Seq<
    PageItemView,
> {
    Seq::new(entries.len(), |i: int| plus_item(entries[i], handles[i]))
}

/// Lays out an entry as it would go into a READDIRPLUS reply.
pub fn plus_page_item(e: &DirEntry, handle: &nfs_fh3) -> (item: PageItem)
    ensures
        item@ == plus_item(e@, handle@),
{
    if !e.name.fits() {
        PageItem { bytes: None, dir_bytes: 0 }
    } else if !handle.fits() {
        PageItem { bytes: None, dir_bytes: 20 + e.name.len() as u64 }
    } else {
        let entry = entryplus3 {
            fileid: e.fileid,
            name: e.name.duplicate(),
            cookie: e.fileid,
            name_attributes: post_op_attr::attributes(e.attr),
            name_handle: post_op_fh3::handle(
                nfs_fh3 { data: nfsstring::from_bytes(handle.data.as_slice()).0 },
            ),
        };
        let mut bytes: Vec<u8> = Vec::new();
        encode_bool(true, &mut bytes);
        entry.serialize(&mut bytes);
        assert(bytes@ =~= bool_wire(true) + entryplus3::wire(plus_entry(e@, handle@)));
        PageItem { bytes: Some(bytes), dir_bytes: 20 + e.name.len() as u64 }
    }
}

/// The handles of the entries of a listing in the generation
/// `generation`.
pub open spec fn handles_of(generation: u64, entries: Seq<DirEntryView>) -> Seq<Seq<u8>> {
    Seq::new(entries.len(), |i: int| handle_bytes(generation, entries[i].fileid))
}

/// What a list of handles holds, as plain values.
pub open spec fn handles_view(handles: Seq<nfs_fh3>) -> Seq<Seq<u8>> {
    Seq::new(handles.len(), |i: int| handles[i]@)
}

/// The result of READDIRPLUS. For a listing that the file system gave,
/// the [`page`] of its entries that stays within both counts that the
/// client names: `maxcount` for the reply, `dircount` for the names. For
/// one that it refused, the status of that and the attributes of the
/// directory.
pub open spec fn readdirplus_result(
    dir_attr: Result<fattr3, nfsstat3>,
    listing: Result<ReadDirResultView, nfsstat3>,
    handles: Seq<Seq<u8>>,
    dircount: u32,
    maxcount: u32,
) -> Seq<u8> {
    match listing {
        Err(stat) => nfsstat3::wire(stat) + post_op_attr::wire(post_op_of(dir_attr)),
        Ok(l) => page(
            listing_head(dir_attr),
            plus_items(l.entries, handles),
            l.end,
            maxcount,
            Some(dircount),
        ),
    }
}

/// The result of READDIRPLUS, from what `getattr` and `readdir`
/// answered, and the handle of each entry. Where the listing was
/// refused, the handles are of no account.
pub fn readdirplus_body(
    dir_attr: &Result<fattr3, nfsstat3>,
    listing: &Result<ReadDirResult, nfsstat3>,
    handles: &Vec<nfs_fh3>,
    dircount: u32,
    maxcount: u32,
) -> (body: Vec<u8>)
    requires
        listing matches Ok(l) ==> handles@.len() == l.entries@.len(),
    ensures
        body@ == readdirplus_result(
            *dir_attr,
            listing_view(*listing),
            handles_view(handles@),
            dircount,
            maxcount,
        ),
{
    match listing {
        Err(stat) => {
            let mut body = status_body(*stat);
            post_op(dir_attr).serialize(&mut body);
            body
        },
        Ok(l) => {
            let mut items: Vec<PageItem> = Vec::new();
            let n = l.entries.len();
            let mut i: usize = 0;
            while i < n
                invariant
                    i <= n,
                    n == l.entries@.len(),
                    n == handles@.len(),
                    items@.len() == i,
                    forall|k: int|
                        0 <= k < i ==> (#[trigger] items@[k])@ == plus_item(
                            l@.entries[k],
                            handles@[k]@,
                        ),
                decreases n - i,
            {
                assert(l@.entries[i as int] == l.entries@[i as int]@);
                items.push(plus_page_item(&l.entries[i], &handles[i]));
                i += 1;
            }
            assert(items_view(items@) =~= plus_items(l@.entries, handles_view(handles@)));
            pack_page(start_listing(dir_attr), &items, l.end, maxcount, Some(dircount))
        },
    }
}

/// What the file system said of its files while a READDIRPLUS was
/// handled.
pub struct ReaddirplusAnswers {
    /// The attributes of the directory.
    pub dir_attr: Result<fattr3, nfsstat3>,
    /// The entries behind the cookie of the request.
    pub listing: Result<ReadDirResultView, nfsstat3>,
}

/// What READDIRPLUS does with a request. A handle that does not resolve
/// is answered with the status of that and no attributes; every other
/// with [`readdirplus_result`], where each entry has the handle of its
/// id. The file system is asked what [`listing_request`] says.
pub open spec fn readdirplus_outcome(
    xid: u32,
    input: Seq<u8>,
    fs: Served,
    a: ReaddirplusAnswers,
) -> Outcome {
    match READDIRPLUS3args::parse(input, 0) {
        None => Err(RpcError::Decode),
        Some((args, _)) => match resolve_handle(fs.generation, args.dir) {
            Err(stat) => Ok(result_reply(xid, refusal_attr(stat))),
            Ok(_) => Ok(
                result_reply(
                    xid,
                    readdirplus_result(
                        a.dir_attr,
                        a.listing,
                        match a.listing {
                            Ok(l) => handles_of(fs.generation, l.entries),
                            Err(_) => Seq::empty(),
                        },
                        args.dircount,
                        args.maxcount,
                    ),
                ),
            ),
        },
    }
}

/// Handles a READDIRPLUS call: resolves the handle, asks for the
/// attributes of the directory, for the listing that [`listing_request`]
/// names and for the handle of each of its entries, and replies what
/// [`readdirplus_outcome`] gives.
pub fn nfsproc3_readdirplus<V: NFSFileSystem>(
    xid: u32,
    input: &[u8],
    output: &mut Vec<u8>,
    context: &Context<V>,
) -> (r: Result<(), RpcError>)
    ensures
        exists|a: ReaddirplusAnswers|
            handled(
                old(output)@,
                final(output)@,
                r,
                #[trigger] readdirplus_outcome(xid, input@, served(&context.vfs), a),
            ),
        match READDIRPLUS3args::parse(input@, 0) {
            Some((args, _)) => match resolve_handle(context.vfs.generation_of(), args.dir) {
                Err(stat) => final(output)@ == old(output)@ + result_reply(
                    xid,
                    refusal_attr(stat),
                ),
                Ok(_) => true,
            },
            None => true,
        },
        r is Err <==> READDIRPLUS3args::parse(input@, 0) is None,
        r is Err ==> r == Err::<(), RpcError>(RpcError::Decode),
        r is Ok ==> answers_call(old(output)@, final(output)@, xid),
        r is Err ==> final(output)@ == old(output)@,
{
    let ghost fs = served(&context.vfs);
    let ghost mut a = ReaddirplusAnswers {
        dir_attr: Err(nfsstat3::NFS3_OK),
        listing: Err(nfsstat3::NFS3_OK),
    };
    let args = match READDIRPLUS3args::deserialize(input, 0) {
        Ok((args, _)) => args,
        Err(_) => {
            assert(handled(
                old(output)@,
                output@,
                Err::<(), RpcError>(RpcError::Decode),
                readdirplus_outcome(xid, input@, fs, a),
            ));
            return Err(RpcError::Decode);
        },
    };
    let body = match context.vfs.fh_to_id(&args.dir) {
        Err(stat) => refuse_attr(stat),
        Ok(dirid) => {
            let dir_attr = context.vfs.getattr(dirid);
            let request = listing_request(args.cookie, args.dircount);
            let listing = context.vfs.readdir(dirid, request.start_after, request.max_entries);
            proof {
                a.dir_attr = dir_attr;
                a.listing = listing_view(listing);
            }
            let mut handles: Vec<nfs_fh3> = Vec::new();
            match &listing {
                Err(_) => {
                    assert(handles_view(handles@) =~= Seq::<Seq<u8>>::empty());
                },
                Ok(l) => {
                    let n = l.entries.len();
                    let mut i: usize = 0;
                    while i < n
                        invariant
                            i <= n,
                            n == l.entries@.len(),
                            handles@.len() == i,
                            fs == served(&context.vfs),
                            forall|k: int|
                                0 <= k < i ==> (#[trigger] handles@[k])@ == handle_bytes(
                                    fs.generation,
                                    l.entries@[k].fileid,
                                ),
                        decreases n - i,
                    {
                        handles.push(context.vfs.id_to_fh(l.entries[i].fileid));
                        i += 1;
                    }
                    assert(handles_view(handles@) =~= handles_of(fs.generation, l@.entries));
                },
            }
            readdirplus_body(&dir_attr, &listing, &handles, args.dircount, args.maxcount)
        },
    };
    send_result(xid, &body, output);
    assert(handled(
        old(output)@,
        output@,
        Ok::<(), RpcError>(()),
        readdirplus_outcome(xid, input@, fs, a),
    ));
    Ok(())
}

} // verus!
