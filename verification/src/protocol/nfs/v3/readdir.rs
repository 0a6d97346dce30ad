//! READDIR: the names in a directory, page by page.
//!
//! A reply must stay within the size that the client names, so a page
//! takes the entries of a listing one by one until the next would leave
//! too little room. That rule is the same for READDIR and READDIRPLUS and
//! stands here.

use crate::protocol::nfs::v3::{refusal_attr, refuse_attr, status_body};
use crate::protocol::rpc::{
    answers_call, handled, result_reply, send_result, Context, Outcome, RpcError,
};
use crate::protocol::xdr::{bool_wire, encode_bool, encode_u32, lemma_concat_assoc, u32_wire};
use crate::protocol::xdr::nfs3::{
    entry3, entry3View, fattr3, lemma_post_op_attr_len, nfsstat3, nfsstring, nfstime3, post_op_attr,
    READDIR3args,
};
use crate::protocol::xdr::rpc::lemma_success_reply_len;
use crate::vfs::{
    listing_request, post_op, post_op_of, resolve_handle, served, DirEntryView, NFSFileSystem,
    ReadDirResult, ReadDirResultView, Served,
};
use vstd::prelude::*;

verus! {

// ---------------------------------------------------------------------
// pages
// ---------------------------------------------------------------------

/// An entry as it would go into a reply.
#[derive(Debug)]
pub struct PageItem {
    /// The bytes of the entry, with the flag in front that says that an
    /// entry follows. `None` for an entry that has no encoding, because
    /// a length in it does not fit 32 bits.
    pub bytes: Option<Vec<u8>>,
    /// What the entry counts towards the limit on names: its file id,
    /// its name with the length in front, and its cookie.
    pub dir_bytes: u64,
}

/// What a [`PageItem`] holds, as plain values.
pub struct PageItemView {
    pub bytes: Option<Seq<u8>>,
    pub dir_bytes: int,
}

impl View for PageItem {
    type V = PageItemView;

    open spec fn view(&self) -> PageItemView {
        PageItemView {
            bytes: match self.bytes {
                Some(b) => Some(b@),
                None => None,
            },
            dir_bytes: self.dir_bytes as int,
        }
    }
}

/// What a list of entries holds, as plain values.
pub open spec fn items_view(items: Seq<PageItem>) -> Seq<PageItemView> {
    Seq::new(items.len(), |i: int| items[i]@)
}

/// The bytes that are kept free behind the entries, for the mark that
/// ends the list and for the flag that says whether the listing is
/// complete.
pub const PAGE_RESERVE: u32 = 128;

/// The number of bytes of the envelope in front of a result.
pub const ENVELOPE_LEN: u32 = 24;

/// The size of an entry. One without an encoding is larger than every
/// limit that a client can name.
pub open spec fn item_size(item: PageItemView) -> int {
    match item.bytes {
        Some(b) => b.len() as int,
        None => 0x1_0000_0000,
    }
}

/// Whether an entry goes into a reply of which `written` bytes stand,
/// `dir_used` of them counted towards the limit on names. It does if
/// with it the reply stays under `maxcount` less the reserve and, where
/// there is a limit on names, the names stay under it.
pub open spec fn admits(
    item: PageItemView,
    written: int,
    dir_used: int,
    maxcount: int,
    dircount: Option<int>,
) -> bool {
    &&& item_size(item) + written + PAGE_RESERVE < maxcount
    &&& dircount matches Some(limit) ==> item.dir_bytes + dir_used < limit
}

/// The number of entries that a page takes: those in front of the first
/// that is not admitted. `from` entries are taken already.
pub open spec fn admitted(
    items: Seq<PageItemView>,
    from: int,
    written: int,
    dir_used: int,
    maxcount: int,
    dircount: Option<int>,
) -> int
    decreases items.len() - from,
{
    if from < 0 || from >= items.len() {
        items.len() as int
    } else if admits(items[from], written, dir_used, maxcount, dircount) {
        admitted(
            items,
            from + 1,
            written + item_size(items[from]),
            dir_used + items[from].dir_bytes,
            maxcount,
            dircount,
        )
    } else {
        from
    }
}

/// The first `k` entries, one behind the other.
pub open spec fn items_upto(items: Seq<PageItemView>, k: int) -> Seq<u8>
    decreases k,
{
    if k <= 0 {
        Seq::empty()
    } else {
        items_upto(items, k - 1) + match items[k - 1].bytes {
            Some(b) => b,
            None => Seq::empty(),
        }
    }
}

/// The size of the first `k` entries.
pub open spec fn size_upto(items: Seq<PageItemView>, k: int) -> int
    decreases k,
{
    if k <= 0 {
        0
    } else {
        size_upto(items, k - 1) + item_size(items[k - 1])
    }
}

/// What the first `k` entries count towards the limit on names.
pub open spec fn dir_bytes_upto(items: Seq<PageItemView>, k: int) -> int
    decreases k,
{
    if k <= 0 {
        0
    } else {
        dir_bytes_upto(items, k - 1) + items[k - 1].dir_bytes
    }
}

/// The number of entries in the page that starts with `head`, where the
/// envelope stands in front of it.
pub open spec fn page_len(
    head: Seq<u8>,
    items: Seq<PageItemView>,
    maxcount: u32,
    dircount: Option<u32>,
) -> int {
    admitted(
        items,
        0,
        ENVELOPE_LEN + head.len(),
        0,
        maxcount as int,
        match dircount {
            Some(d) => Some(d as int),
            None => None,
        },
    )
}

/// A page: `head`, the entries that are admitted, the mark that no entry
/// follows, and the flag that says that the listing is complete. The
/// flag is set if every entry was admitted and the file system said that
/// the directory holds no more.
pub open spec fn page(
    head: Seq<u8>,
    items: Seq<PageItemView>,
    end: bool,
    maxcount: u32,
    dircount: Option<u32>,
) -> Seq<u8> {
    let k = page_len(head, items, maxcount, dircount);
    head + items_upto(items, k) + bool_wire(false) + bool_wire(k == items.len() && end)
}

/// Entries that are admitted behind `from` keep the reply under the
/// limits.
proof fn lemma_admitted_from(
    items: Seq<PageItemView>,
    from: int,
    written: int,
    dir_used: int,
    maxcount: int,
    dircount: Option<int>,
)
    requires
        0 <= from <= items.len(),
        0 <= written,
        maxcount <= 0xffff_ffff,
    ensures
        ({
            let k = admitted(items, from, written, dir_used, maxcount, dircount);
            &&& from <= k <= items.len()
            &&& forall|i: int| from <= i < k ==> (#[trigger] items[i]).bytes is Some
            &&& k > from ==> written + (size_upto(items, k) - size_upto(items, from)) + PAGE_RESERVE
                < maxcount
            &&& k > from ==> (dircount matches Some(limit) ==> dir_used + (dir_bytes_upto(items, k)
                - dir_bytes_upto(items, from)) < limit)
            &&& size_upto(items, k) - size_upto(items, from) >= 0
            &&& items_upto(items, k).len() - items_upto(items, from).len() == size_upto(items, k)
                - size_upto(items, from)
        }),
    decreases items.len() - from,
{
    if from < items.len() && admits(items[from], written, dir_used, maxcount, dircount) {
        lemma_admitted_from(
            items,
            from + 1,
            written + item_size(items[from]),
            dir_used + items[from].dir_bytes,
            maxcount,
            dircount,
        );
        let k = admitted(items, from, written, dir_used, maxcount, dircount);
        assert(size_upto(items, from + 1) == size_upto(items, from) + item_size(items[from]));
        assert(dir_bytes_upto(items, from + 1) == dir_bytes_upto(items, from)
            + items[from].dir_bytes);
        assert(items_upto(items, from + 1).len() == items_upto(items, from).len() + item_size(
            items[from],
        ));
    }
}

/// Without a limit on names, what the names count is of no account.
proof fn lemma_admitted_without_limit(
    items: Seq<PageItemView>,
    from: int,
    written: int,
    one: int,
    other: int,
    maxcount: int,
)
    ensures
        admitted(items, from, written, one, maxcount, None) == admitted(
            items,
            from,
            written,
            other,
            maxcount,
            None,
        ),
    decreases items.len() - from,
{
    if 0 <= from < items.len() && admits(items[from], written, one, maxcount, None) {
        lemma_admitted_without_limit(
            items,
            from + 1,
            written + item_size(items[from]),
            one + items[from].dir_bytes,
            other + items[from].dir_bytes,
            maxcount,
        );
    }
}

/// Byte accounting. A reply with a page in it that holds an entry is
/// shorter than `maxcount`, by more than 120 bytes; one whose page is
/// empty is the head, the envelope and 8 bytes long. The names of the
/// entries stay within `dircount`, where that is given.
pub proof fn lemma_page_within_limits(
    xid: u32,
    head: Seq<u8>,
    items: Seq<PageItemView>,
    end: bool,
    maxcount: u32,
    dircount: Option<u32>,
)
    ensures
        ({
            let k = page_len(head, items, maxcount, dircount);
            let reply = result_reply(xid, page(head, items, end, maxcount, dircount));
            &&& 0 <= k <= items.len()
            &&& reply.len() == ENVELOPE_LEN + head.len() + size_upto(items, k) + 8
            &&& k > 0 ==> reply.len() + 120 < maxcount
            &&& k == 0 ==> reply.len() == ENVELOPE_LEN + head.len() + 8
            &&& k > 0 ==> (dircount matches Some(limit) ==> dir_bytes_upto(items, k) < limit)
            &&& k == 0 ==> dir_bytes_upto(items, k) == 0
            &&& reply.subrange(reply.len() - 4, reply.len() as int) == bool_wire(
                k == items.len() && end,
            )
        }),
{
    let k = page_len(head, items, maxcount, dircount);
    let reply = result_reply(xid, page(head, items, end, maxcount, dircount));
    assert(reply.subrange(reply.len() - 4, reply.len() as int) =~= bool_wire(
        k == items.len() && end,
    ));
    lemma_success_reply_len(xid);
    lemma_admitted_from(
        items,
        0,
        ENVELOPE_LEN + head.len(),
        0,
        maxcount as int,
        match dircount {
            Some(d) => Some(d as int),
            None => None,
        },
    );
}

/// Puts a page together.
pub fn pack_page(
    head: Vec<u8>,
    items: &Vec<PageItem>,
    end: bool,
    maxcount: u32,
    dircount: Option<u32>,
) -> (body: Vec<u8>)
    requires
        head@.len() <= 0xffff_ffff,
    ensures
        body@ == page(head@, items_view(items@), end, maxcount, dircount),
{
    let ghost all = items_view(items@);
    let ghost limit = match dircount {
        Some(d) => Some(d as int),
        None => None::<int>,
    };
    let ghost start = ENVELOPE_LEN + head@.len();
    let mut body = head;
    let n = items.len();
    let mut written: u64 = 24 + body.len() as u64;
    let mut dir_used: u64 = 0;
    let mut i: usize = 0;
    let mut open = true;
    assert(body@ =~= head@ + items_upto(all, 0));
    while open && i < n
        invariant
            i <= n,
            n == items@.len(),
            all == items_view(items@),
            limit == match dircount {
                Some(d) => Some(d as int),
                None => None::<int>,
            },
            body@ == head@ + items_upto(all, i as int),
            written == ENVELOPE_LEN + body@.len(),
            written <= start || written < maxcount,
            start <= 0x1_0000_0018,
            dir_used <= 0xffff_ffff,
            open ==> admitted(all, 0, start, 0, maxcount as int, limit) == admitted(
                all,
                i as int,
                written as int,
                dir_used as int,
                maxcount as int,
                limit,
            ),
            !open ==> admitted(all, 0, start, 0, maxcount as int, limit) == i,
        decreases n - i, open as int,
    {
        let item = &items[i];
        assert(all[i as int] == item@);
        let fits = match &item.bytes {
            None => false,
            Some(b) => {
                let within = b.len() <= 0xffff_ffff && b.len() as u64 + written + 128
                    < maxcount as u64;
                let names_within = match dircount {
                    None => true,
                    Some(d) => item.dir_bytes <= 0xffff_ffff && item.dir_bytes + dir_used
                        < d as u64,
                };
                within && names_within
            },
        };
        assert(fits == admits(item@, written as int, dir_used as int, maxcount as int, limit));
        match &item.bytes {
            Some(b) => {
                if fits {
                    let ghost before = body@;
                    let ghost old_dir_used = dir_used as int;
                    body.extend_from_slice(b.as_slice());
                    written = written + b.len() as u64;
                    dir_used = if dircount.is_some() {
                        dir_used + item.dir_bytes
                    } else {
                        0
                    };
                    proof {
                        assert(body@ =~= before + b@);
                        lemma_concat_assoc(head@, items_upto(all, i as int), b@);
                        assert(items_upto(all, i + 1) == items_upto(all, i as int) + b@);
                        if dircount is None {
                            lemma_admitted_without_limit(
                                all,
                                i + 1,
                                written as int,
                                0,
                                old_dir_used + item.dir_bytes,
                                maxcount as int,
                            );
                        }
                    }
                    i += 1;
                } else {
                    open = false;
                }
            },
            None => {
                open = false;
            },
        }
    }
    encode_bool(false, &mut body);
    encode_bool(i == n && end, &mut body);
    body
}

// ---------------------------------------------------------------------
// READDIR
// ---------------------------------------------------------------------

/// What stands in front of the entries of a listing: the status, the
/// attributes of the directory, and the cookie verifier. The verifier is
/// the modification time of the directory, and zero where that cannot
/// be had. No request is refused for the verifier it brings.
pub open spec fn listing_head(dir_attr: Result<fattr3, nfsstat3>) -> Seq<u8> {
    let mtime = match dir_attr {
        Ok(attr) => attr.mtime,
        Err(_) => nfstime3 { seconds: 0, nseconds: 0 },
    };
    nfsstat3::wire(nfsstat3::NFS3_OK) + post_op_attr::wire(post_op_of(dir_attr)) + u32_wire(
        mtime.seconds,
    ) + u32_wire(mtime.nseconds)
}

/// The head of a listing is at most 100 bytes long.
pub proof fn lemma_listing_head_len(dir_attr: Result<fattr3, nfsstat3>)
    ensures
        listing_head(dir_attr).len() == if dir_attr is Ok {
            100int
        } else {
            16int
        },
{
    lemma_post_op_attr_len(post_op_of(dir_attr));
}

/// Byte accounting for a listing. The reply is no longer than
/// `maxcount`, unless it holds no entry: then it is at most 132 bytes
/// long, which a smaller `maxcount` cannot change. The names of the
/// entries stay within `dircount`, where that is given. The flag at the
/// end says whether every entry of the listing went into the reply and
/// the file system had no more.
pub proof fn lemma_listing_within_limits(
    xid: u32,
    dir_attr: Result<fattr3, nfsstat3>,
    items: Seq<PageItemView>,
    end: bool,
    maxcount: u32,
    dircount: Option<u32>,
)
    ensures
        ({
            let head = listing_head(dir_attr);
            let k = page_len(head, items, maxcount, dircount);
            let reply = result_reply(xid, page(head, items, end, maxcount, dircount));
            &&& k > 0 ==> reply.len() <= maxcount
            &&& k == 0 ==> reply.len() <= 132
            &&& dircount matches Some(limit) ==> dir_bytes_upto(items, k) <= limit
            &&& reply.subrange(reply.len() - 4, reply.len() as int) == bool_wire(
                k == items.len() && end,
            )
        }),
{
    lemma_listing_head_len(dir_attr);
    lemma_page_within_limits(xid, listing_head(dir_attr), items, end, maxcount, dircount);
}

/// What stands in front of the entries of a listing.
pub fn start_listing(dir_attr: &Result<fattr3, nfsstat3>) -> (head: Vec<u8>)
    ensures
        head@ == listing_head(*dir_attr),
        head@.len() <= 100,
{
    let mtime = match dir_attr {
        Ok(attr) => attr.mtime,
        Err(_) => nfstime3 { seconds: 0, nseconds: 0 },
    };
    let mut head = status_body(nfsstat3::NFS3_OK);
    post_op(dir_attr).serialize(&mut head);
    encode_u32(mtime.seconds, &mut head);
    encode_u32(mtime.nseconds, &mut head);
    proof {
        lemma_listing_head_len(*dir_attr);
    }
    head
}

/// An entry of a READDIR reply: the file id, the name, and the file id
/// once more as the cookie behind which a later request goes on.
pub open spec fn simple_entry(e: DirEntryView) -> entry3View {
    entry3View { fileid: e.fileid, name: e.name, cookie: e.fileid }
}

/// What an entry counts towards the limit on names: 8 bytes for the file
/// id, 4 for the length of the name, the name, and 8 for the cookie.
pub open spec fn name_bytes(name: Seq<u8>) -> int {
    8 + 4 + name.len() as int + 8
}

/// An entry as it would go into a READDIR reply. A name that is too long
/// for the wire gives the entry no encoding.
pub open spec fn simple_item(e: DirEntryView) -> PageItemView {
    if nfsstring::encodable(e.name) {
        PageItemView {
            bytes: Some(bool_wire(true) + entry3::wire(simple_entry(e))),
            dir_bytes: name_bytes(e.name),
        }
    } else {
        PageItemView { bytes: None, dir_bytes: 0 }
    }
}

/// The entries of a listing as they would go into a READDIR reply.
pub open spec fn simple_items(entries: Seq<DirEntryView>) -> Seq<PageItemView> {
    Seq::new(entries.len(), |i: int| simple_item(entries[i]))
}

/// Lays out the entries of a listing as they would go into a READDIR
/// reply.
pub fn simple_page_items(listing: &ReadDirResult) -> (items: Vec<PageItem>)
    ensures
        items_view(items@) == simple_items(listing@.entries),
{
    let mut items: Vec<PageItem> = Vec::new();
    let n = listing.entries.len();
    let mut i: usize = 0;
    while i < n
        invariant
            i <= n,
            n == listing.entries@.len(),
            items@.len() == i,
            forall|k: int|
                0 <= k < i ==> (#[trigger] items@[k])@ == simple_item(listing@.entries[k]),
        decreases n - i,
    {
        let e = &listing.entries[i];
        assert(listing@.entries[i as int] == e@);
        let item = if e.name.fits() {
            let entry = entry3 { fileid: e.fileid, name: e.name.duplicate(), cookie: e.fileid };
            let mut bytes: Vec<u8> = Vec::new();
            encode_bool(true, &mut bytes);
            entry.serialize(&mut bytes);
            assert(bytes@ =~= bool_wire(true) + entry3::wire(simple_entry(e@)));
            PageItem { bytes: Some(bytes), dir_bytes: 20 + e.name.len() as u64 }
        } else {
            PageItem { bytes: None, dir_bytes: 0 }
        };
        items.push(item);
        i += 1;
    }
    assert(items_view(items@) =~= simple_items(listing@.entries));
    items
}

/// A listing, as plain values.
pub open spec fn listing_view(listing: Result<ReadDirResult, nfsstat3>) -> Result<
    ReadDirResultView,
    nfsstat3,
> {
    match listing {
        Ok(l) => Ok(l@),
        Err(stat) => Err(stat),
    }
}

/// The result of READDIR. For a listing that the file system gave, the
/// [`page`] of its entries that stays within the count that the client
/// names; nothing limits the names apart from that. For one that it
/// refused, the status of that and the attributes of the directory.
pub open spec fn readdir_result(
    dir_attr: Result<fattr3, nfsstat3>,
    listing: Result<ReadDirResultView, nfsstat3>,
    count: u32,
) -> Seq<u8> {
    match listing {
        Err(stat) => nfsstat3::wire(stat) + post_op_attr::wire(post_op_of(dir_attr)),
        Ok(l) => page(listing_head(dir_attr), simple_items(l.entries), l.end, count, None),
    }
}

/// The result of READDIR, from what `getattr` and `readdir` answered.
pub fn readdir_body(
    dir_attr: &Result<fattr3, nfsstat3>,
    listing: &Result<ReadDirResult, nfsstat3>,
    count: u32,
) -> (body: Vec<u8>)
    ensures
        body@ == readdir_result(*dir_attr, listing_view(*listing), count),
{
    match listing {
        Err(stat) => {
            let mut body = status_body(*stat);
            post_op(dir_attr).serialize(&mut body);
            body
        },
        Ok(l) => {
            let items = simple_page_items(l);
            pack_page(start_listing(dir_attr), &items, l.end, count, None)
        },
    }
}

/// What the file system said of its files while a READDIR was handled.
pub struct ReaddirAnswers {
    /// The attributes of the directory.
    pub dir_attr: Result<fattr3, nfsstat3>,
    /// The entries behind the cookie of the request.
    pub listing: Result<ReadDirResultView, nfsstat3>,
}

/// What READDIR does with a request. A handle that does not resolve is
/// answered with the status of that and no attributes; every other with
/// [`readdir_result`]. The file system is asked what [`listing_request`]
/// says.
pub open spec fn readdir_outcome(
    xid: u32,
    input: Seq<u8>,
    fs: Served,
    a: ReaddirAnswers,
) -> Outcome {
    match READDIR3args::parse(input, 0) {
        None => Err(RpcError::Decode),
        Some((args, _)) => match resolve_handle(fs.generation, args.dir) {
            Err(stat) => Ok(result_reply(xid, refusal_attr(stat))),
            Ok(_) => Ok(result_reply(xid, readdir_result(a.dir_attr, a.listing, args.dircount))),
        },
    }
}

/// Handles a READDIR call: resolves the handle, asks for the attributes
/// of the directory and for the listing that [`listing_request`] names,
/// and replies what [`readdir_outcome`] gives.
pub fn nfsproc3_readdir<V: NFSFileSystem>(
    xid: u32,
    input: &[u8],
    output: &mut Vec<u8>,
    context: &Context<V>,
) -> (r: Result<(), RpcError>)
    ensures
        exists|a: ReaddirAnswers|
            handled(
                old(output)@,
                final(output)@,
                r,
                #[trigger] readdir_outcome(xid, input@, served(&context.vfs), a),
            ),
        match READDIR3args::parse(input@, 0) {
            Some((args, _)) => match resolve_handle(context.vfs.generation_of(), args.dir) {
                Err(stat) => final(output)@ == old(output)@ + result_reply(
                    xid,
                    refusal_attr(stat),
                ),
                Ok(_) => true,
            },
            None => true,
        },
        r is Err <==> READDIR3args::parse(input@, 0) is None,
        r is Err ==> r == Err::<(), RpcError>(RpcError::Decode),
        r is Ok ==> answers_call(old(output)@, final(output)@, xid),
        r is Err ==> final(output)@ == old(output)@,
{
    let ghost fs = served(&context.vfs);
    let ghost mut a = ReaddirAnswers {
        dir_attr: Err(nfsstat3::NFS3_OK),
        listing: Err(nfsstat3::NFS3_OK),
    };
    let args = match READDIR3args::deserialize(input, 0) {
        Ok((args, _)) => args,
        Err(_) => {
            assert(handled(
                old(output)@,
                output@,
                Err::<(), RpcError>(RpcError::Decode),
                readdir_outcome(xid, input@, fs, a),
            ));
            return Err(RpcError::Decode);
        },
    };
    let body = match context.vfs.fh_to_id(&args.dir) {
        Err(stat) => refuse_attr(stat),
        Ok(dirid) => {
            let dir_attr = context.vfs.getattr(dirid);
            let request = listing_request(args.cookie, args.dircount);
            let listing = context.vfs.readdir(dirid, request.start_after, request.max_entries);
            proof {
                a.dir_attr = dir_attr;
                a.listing = listing_view(listing);
            }
            readdir_body(&dir_attr, &listing, args.dircount)
        },
    };
    send_result(xid, &body, output);
    assert(handled(
        old(output)@,
        output@,
        Ok::<(), RpcError>(()),
        readdir_outcome(xid, input@, fs, a),
    ));
    Ok(())
}

} // verus!
