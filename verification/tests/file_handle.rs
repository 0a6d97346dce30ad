//! File handles, paths, and what a file system reports by default.

use nfsserve::vfs::{
    listing_request, walk_start, walk_step, ListingRequest, Walk, default_fsinfo, handle_of_id, id_of_handle, split_path, u64_from_le, u64_to_le, DirEntry,
    ReadDirResult, ReadDirSimpleResult,
};
use nfsserve::xdr::nfs3::{
    fattr3, nfs_fh3, nfsstat3, nfsstring, nfstime3, post_op_attr, FSF_CANSETTIME,
    FSF_HOMOGENEOUS, FSF_SYMLINK,
};

#[test]
fn handle_is_generation_then_id_little_endian() {
    let fh = handle_of_id(0x0102030405060708, 0x1112131415161718);
    assert_eq!(
        fh.data,
        vec![8, 7, 6, 5, 4, 3, 2, 1, 0x18, 0x17, 0x16, 0x15, 0x14, 0x13, 0x12, 0x11]
    );
}

#[test]
fn handle_round_trips_within_a_generation() {
    for generation in [0u64, 1, 1_700_000_000_000, u64::MAX] {
        for id in [0u64, 1, 2, 0xffff_ffff, 0x1_0000_0000, u64::MAX] {
            let fh = handle_of_id(generation, id);
            assert_eq!(fh.data.len(), 16);
            assert_eq!(id_of_handle(generation, &fh), Ok(id));
        }
    }
}

#[test]
fn handle_of_wrong_length_is_bad() {
    let generation = 1000;
    for len in [0usize, 1, 8, 15, 17, 32] {
        let fh = nfs_fh3 { data: vec![0; len] };
        assert_eq!(id_of_handle(generation, &fh), Err(nfsstat3::NFS3ERR_BADHANDLE));
    }
    let mut long = handle_of_id(generation, 5);
    long.data.push(0);
    assert_eq!(id_of_handle(generation, &long), Err(nfsstat3::NFS3ERR_BADHANDLE));
}

#[test]
fn handle_of_an_earlier_run_is_stale() {
    let fh = handle_of_id(999, 5);
    assert_eq!(id_of_handle(1000, &fh), Err(nfsstat3::NFS3ERR_STALE));
    let fh = handle_of_id(0, 5);
    assert_eq!(id_of_handle(u64::MAX, &fh), Err(nfsstat3::NFS3ERR_STALE));
    // The comparison is of the numbers, not of the bytes.
    let fh = handle_of_id(0x00ff, 5);
    assert_eq!(id_of_handle(0x0100, &fh), Err(nfsstat3::NFS3ERR_STALE));
}

#[test]
fn handle_of_a_later_run_is_bad() {
    let fh = handle_of_id(1001, 5);
    assert_eq!(id_of_handle(1000, &fh), Err(nfsstat3::NFS3ERR_BADHANDLE));
    let fh = handle_of_id(0x0100, 5);
    assert_eq!(id_of_handle(0x00ff, &fh), Err(nfsstat3::NFS3ERR_BADHANDLE));
}

#[test]
fn little_endian_numbers() {
    assert_eq!(u64_to_le(1), [1, 0, 0, 0, 0, 0, 0, 0]);
    assert_eq!(u64_to_le(0x0102030405060708), [8, 7, 6, 5, 4, 3, 2, 1]);
    assert_eq!(u64_from_le(&[9, 8, 7, 6, 5, 4, 3, 2, 1, 0], 1), 0x0102030405060708);
    for v in [0u64, 255, 256, u64::MAX, 0x8000_0000_0000_0000] {
        assert_eq!(u64_from_le(&u64_to_le(v), 0), v);
        assert_eq!(u64_to_le(v), v.to_le_bytes());
    }
}

fn names(path: &[u8]) -> Vec<Vec<u8>> {
    split_path(path).into_iter().map(|n| n.0).collect()
}

#[test]
fn path_is_split_at_slashes() {
    assert_eq!(names(b""), Vec::<Vec<u8>>::new());
    assert_eq!(names(b"/"), Vec::<Vec<u8>>::new());
    assert_eq!(names(b"///"), Vec::<Vec<u8>>::new());
    assert_eq!(names(b"a"), vec![b"a".to_vec()]);
    assert_eq!(names(b"/a"), vec![b"a".to_vec()]);
    assert_eq!(names(b"a/"), vec![b"a".to_vec()]);
    assert_eq!(names(b"/dir/a.txt"), vec![b"dir".to_vec(), b"a.txt".to_vec()]);
    assert_eq!(
        names(b"//x///yy/z//"),
        vec![b"x".to_vec(), b"yy".to_vec(), b"z".to_vec()]
    );
    assert_eq!(names(b"a b/\xff"), vec![b"a b".to_vec(), b"\xff".to_vec()]);
}

#[test]
fn fsinfo_defaults_are_as_advertised() {
    let info = default_fsinfo(post_op_attr::Void);
    assert_eq!(info.obj_attributes, post_op_attr::Void);
    assert_eq!(info.rtmax, 1024 * 1024);
    assert_eq!(info.rtpref, 1024 * 124);
    assert_eq!(info.rtmult, 1024 * 1024);
    assert_eq!(info.wtmax, 1024 * 1024);
    assert_eq!(info.wtpref, 1024 * 1024);
    assert_eq!(info.wtmult, 1024 * 1024);
    assert_eq!(info.dtpref, 1024 * 1024);
    assert_eq!(info.maxfilesize, 128 * 1024 * 1024 * 1024);
    assert_eq!(info.time_delta, nfstime3 { seconds: 0, nseconds: 1_000_000 });
    assert_eq!(info.properties, FSF_SYMLINK | FSF_HOMOGENEOUS | FSF_CANSETTIME);
    assert_eq!(info.properties, 0x1a);
}

#[test]
fn listing_without_attributes_keeps_names_and_order() {
    let entry = |id: u64, name: &[u8]| DirEntry {
        fileid: id,
        name: nfsstring(name.to_vec()),
        attr: fattr3::default(),
    };
    let full = ReadDirResult { entries: vec![entry(3, b"c"), entry(1, b"a"), entry(2, b"b")], end: true };
    let simple = ReadDirSimpleResult::from_readdir_result(&full);
    assert!(simple.end);
    let got: Vec<(u64, Vec<u8>)> =
        simple.entries.iter().map(|e| (e.fileid, e.name.0.clone())).collect();
    assert_eq!(got, vec![(3, b"c".to_vec()), (1, b"a".to_vec()), (2, b"b".to_vec())]);
    let none = ReadDirSimpleResult::from_readdir_result(&ReadDirResult { entries: vec![], end: false });
    assert!(!none.end);
    assert!(none.entries.is_empty());
}

#[test]
fn a_walk_goes_name_by_name() {
    assert_eq!(walk_start(1, 0), Walk::Done(Ok(1)));
    assert_eq!(walk_start(1, 3), Walk::Lookup { dir: 1, name: 0 });
    assert_eq!(walk_step(3, 0, Ok(5)), Walk::Lookup { dir: 5, name: 1 });
    assert_eq!(walk_step(3, 1, Ok(6)), Walk::Lookup { dir: 6, name: 2 });
    assert_eq!(walk_step(3, 2, Ok(7)), Walk::Done(Ok(7)));
    assert_eq!(walk_step(1, 0, Ok(7)), Walk::Done(Ok(7)));
    assert_eq!(walk_step(3, 0, Err(nfsstat3::NFS3ERR_NOENT)), Walk::Done(Err(nfsstat3::NFS3ERR_NOENT)));
    assert_eq!(walk_step(3, 2, Err(nfsstat3::NFS3ERR_IO)), Walk::Done(Err(nfsstat3::NFS3ERR_IO)));
}

#[test]
fn a_listing_is_asked_for_behind_the_cookie() {
    assert_eq!(listing_request(0, 200), ListingRequest { start_after: 0, max_entries: 12 });
    assert_eq!(listing_request(77, 15), ListingRequest { start_after: 77, max_entries: 0 });
    assert_eq!(listing_request(u64::MAX, 16), ListingRequest { start_after: u64::MAX, max_entries: 1 });
    assert_eq!(
        listing_request(5, u32::MAX),
        ListingRequest { start_after: 5, max_entries: 0x0fff_ffff }
    );
}
