//! Pages of a directory listing, and the small pieces that results are
//! made of.

use nfsserve::protocol::nfs::v3::fsstat::default_fsstat;
use nfsserve::protocol::nfs::v3::pathconf::default_pathconf;
use nfsserve::protocol::nfs::v3::readdir::{
    pack_page, simple_page_items, start_listing, PageItem, ENVELOPE_LEN, PAGE_RESERVE,
};
use nfsserve::protocol::nfs::v3::readdirplus::plus_page_item;
use nfsserve::protocol::nfs::v3::{created_body, is_read_write, refuse_wcc, status_body};
use nfsserve::vfs::{Capabilities, DirEntry, ReadDirResult};
use nfsserve::xdr::nfs3::{
    entry3, entryplus3, fattr3, ftype3, nfs_fh3, nfsstat3, nfsstring, nfstime3, post_op_attr,
    post_op_fh3, wcc_data,
};

fn item(len: usize, dir_bytes: u64) -> PageItem {
    PageItem { bytes: Some(vec![0xab; len]), dir_bytes }
}

fn entry(id: u64, name: &[u8]) -> DirEntry {
    DirEntry {
        fileid: id,
        name: nfsstring(name.to_vec()),
        attr: fattr3 { ftype: ftype3::NF3REG, fileid: id, ..fattr3::default() },
    }
}

/// The number of entries in a page whose items are all of 0xab, and its
/// flag.
fn taken(page: &[u8], head: usize, each: usize) -> (usize, bool) {
    let body = page.len() - head - 8;
    assert_eq!(body % each, 0);
    assert!(page[head..head + body].iter().all(|b| *b == 0xab));
    assert_eq!(&page[head + body..head + body + 4], &[0, 0, 0, 0]);
    let flag = &page[head + body + 4..];
    assert!(flag == [0, 0, 0, 0] || flag == [0, 0, 0, 1]);
    (body / each, flag == [0, 0, 0, 1])
}

#[test]
fn reserve_and_envelope() {
    assert_eq!(PAGE_RESERVE, 128);
    assert_eq!(ENVELOPE_LEN, 24);
}

#[test]
fn page_takes_entries_while_they_fit() {
    let items: Vec<PageItem> = (0..10).map(|_| item(40, 30)).collect();
    let head = vec![1u8; 16];
    // An entry is admitted while 40 + written + 128 < maxcount, with 24 + 16 written at first.
    for (maxcount, expect) in [(0u32, 0usize), (208, 0), (209, 1), (248, 1), (249, 2), (568, 9), (569, 10), (100_000, 10)] {
        let page = pack_page(head.clone(), &items, true, maxcount, None);
        assert_eq!(&page[..16], &head[..]);
        assert_eq!(taken(&page, 16, 40), (expect, expect == 10), "maxcount {}", maxcount);
        if expect > 0 {
            assert!(24 + page.len() + 120 < maxcount as usize);
        }
    }
}

#[test]
fn page_keeps_the_names_under_their_limit() {
    let items: Vec<PageItem> = (0..10).map(|_| item(40, 30)).collect();
    for (dircount, expect) in [(0u32, 0usize), (30, 0), (31, 1), (60, 1), (61, 2), (200, 6), (300, 9), (301, 10)] {
        let page = pack_page(vec![], &items, true, 100_000, Some(dircount));
        assert_eq!(taken(&page, 0, 40), (expect, expect == 10), "dircount {}", dircount);
        assert!(30 * expect <= dircount as usize);
    }
}

#[test]
fn page_is_complete_only_if_the_listing_is() {
    let items: Vec<PageItem> = (0..3).map(|_| item(8, 1)).collect();
    assert_eq!(taken(&pack_page(vec![], &items, true, 1000, Some(1000)), 0, 8), (3, true));
    assert_eq!(taken(&pack_page(vec![], &items, false, 1000, Some(1000)), 0, 8), (3, false));
    assert_eq!(taken(&pack_page(vec![], &items, true, 170, None), 0, 8), (2, false));
    assert_eq!(taken(&pack_page(vec![], &items, true, 168, None), 0, 8), (1, false));
    assert_eq!(pack_page(vec![], &vec![], true, 0, None), vec![0, 0, 0, 0, 0, 0, 0, 1]);
    assert_eq!(pack_page(vec![], &vec![], false, 0, None), vec![0, 0, 0, 0, 0, 0, 0, 0]);
    assert_eq!(pack_page(vec![9], &vec![], true, 0, Some(0)), vec![9, 0, 0, 0, 0, 0, 0, 0, 1]);
}

#[test]
fn page_stops_at_an_entry_without_encoding() {
    let items = vec![
        item(8, 1),
        item(8, 1),
        PageItem { bytes: None, dir_bytes: 0 },
        item(8, 1),
    ];
    let page = pack_page(vec![], &items, true, 100_000, Some(100_000));
    assert_eq!(taken(&page, 0, 8), (2, false));
    let page = pack_page(vec![], &vec![item(8, 1), item(8, 1)], true, 100_000, None);
    assert_eq!(taken(&page, 0, 8), (2, true));
    let first = vec![PageItem { bytes: None, dir_bytes: 0 }, item(8, 1)];
    assert_eq!(taken(&pack_page(vec![], &first, true, 100_000, None), 0, 8), (0, false));
}

#[test]
fn page_stops_at_the_first_entry_that_does_not_fit() {
    // The second entry is too large; the third would fit and is not taken.
    let items = vec![item(10, 1), item(500, 1), item(10, 1)];
    let page = pack_page(vec![], &items, true, 400, None);
    assert_eq!(taken(&page, 0, 10), (1, false));
    let items = vec![item(10, 1), item(10, 50), item(10, 1)];
    let page = pack_page(vec![], &items, true, 400, Some(40));
    assert_eq!(taken(&page, 0, 10), (1, false));
}

#[test]
fn entries_are_laid_out_with_the_flag_in_front() {
    let listing = ReadDirResult { entries: vec![entry(7, b"seven"), entry(8, b"")], end: true };
    let items = simple_page_items(&listing);
    assert_eq!(items.len(), 2);
    let mut expect = vec![0, 0, 0, 1];
    entry3 { fileid: 7, name: nfsstring(b"seven".to_vec()), cookie: 7 }.serialize(&mut expect);
    assert_eq!(items[0].bytes, Some(expect));
    assert_eq!(items[0].dir_bytes, 8 + 4 + 5 + 8);
    assert_eq!(items[1].bytes.as_ref().unwrap().len(), 4 + 8 + 4 + 8);
    assert_eq!(items[1].dir_bytes, 20);

    let e = entry(9, b"nine");
    let handle = nfs_fh3 { data: vec![1, 2, 3] };
    let item = plus_page_item(&e, &handle);
    let mut expect = vec![0, 0, 0, 1];
    entryplus3 {
        fileid: 9,
        name: nfsstring(b"nine".to_vec()),
        cookie: 9,
        name_attributes: post_op_attr::attributes(e.attr),
        name_handle: post_op_fh3::handle(handle),
    }
    .serialize(&mut expect);
    assert_eq!(item.bytes, Some(expect));
    assert_eq!(item.dir_bytes, 24);
}

#[test]
fn listing_starts_with_status_attributes_and_verifier() {
    let attr = fattr3 { mtime: nfstime3 { seconds: 0x01020304, nseconds: 0x05060708 }, ..fattr3::default() };
    let head = start_listing(&Ok(attr));
    assert_eq!(head.len(), 100);
    assert_eq!(&head[..4], &[0, 0, 0, 0]);
    assert_eq!(post_op_attr::deserialize(&head, 4), Ok((post_op_attr::attributes(attr), 92)));
    assert_eq!(&head[92..], &[1, 2, 3, 4, 5, 6, 7, 8]);
    let head = start_listing(&Err(nfsstat3::NFS3ERR_IO));
    assert_eq!(head, vec![0u8; 16]);
}

#[test]
fn small_results() {
    assert_eq!(status_body(nfsstat3::NFS3ERR_STALE), vec![0, 0, 0, 70]);
    assert_eq!(status_body(nfsstat3::NFS3ERR_SERVERFAULT), vec![0, 0, 0x27, 0x16]);
    assert_eq!(refuse_wcc(nfsstat3::NFS3ERR_ROFS), vec![0, 0, 0, 30, 0, 0, 0, 0, 0, 0, 0, 0]);
    assert!(is_read_write(Capabilities::ReadWrite));
    assert!(!is_read_write(Capabilities::ReadOnly));
    let body = created_body(nfs_fh3 { data: vec![5; 16] }, post_op_attr::Void, wcc_data::default());
    let mut expect = vec![0, 0, 0, 0];
    post_op_fh3::handle(nfs_fh3 { data: vec![5; 16] }).serialize(&mut expect);
    expect.extend_from_slice(&[0; 12]);
    assert_eq!(body, expect);
    let s = default_fsstat(post_op_attr::Void);
    assert_eq!((s.tbytes, s.fbytes, s.abytes), (1 << 40, 1 << 40, 1 << 40));
    assert_eq!((s.tfiles, s.ffiles, s.afiles, s.invarsec), (1 << 30, 1 << 30, 1 << 30, u32::MAX));
    let p = default_pathconf(post_op_attr::Void);
    assert_eq!((p.linkmax, p.name_max), (0, 32768));
    assert_eq!(
        (p.no_trunc, p.chown_restricted, p.case_insensitive, p.case_preserving),
        (true, true, false, true)
    );
}
