use s3archivefs::errors::{FsError, EACCES, EIO, ENODATA, ENOENT, ERANGE};
use s3archivefs::inode::{
    Inode, InodeType, S_IFBLK, S_IFCHR, S_IFDIR, S_IFIFO, S_IFLNK, S_IFMT, S_IFREG, S_IFSOCK,
    XATTR_NONE,
};
use s3archivefs::ops::{
    open_check, ops_getattr, ops_getxattr, ops_listxattr, ops_open, ops_readlink, ops_release,
};
use s3archivefs::squashfs::{
    Archive, ArchiveFs, DirEntry, DirReader, ReadCursor, ReadStep, TreeWalk,
};
use s3archivefs::stat::{inode_stat, Stat};
use s3archivefs::xattr::{find_xattr, key_selected, value_reply, XattrPair, XattrSet};

fn superblock_bytes() -> Vec<u8> {
    let mut b = Vec::new();
    b.extend_from_slice(&0x7371_7368u32.to_le_bytes());
    b.extend_from_slice(&7u32.to_le_bytes());
    b.extend_from_slice(&1_700_000_000u32.to_le_bytes());
    b.extend_from_slice(&4096u32.to_le_bytes());
    b.extend_from_slice(&0u32.to_le_bytes());
    b.extend_from_slice(&1u16.to_le_bytes());
    b.extend_from_slice(&12u16.to_le_bytes());
    b.extend_from_slice(&0u16.to_le_bytes());
    b.extend_from_slice(&2u16.to_le_bytes());
    b.extend_from_slice(&4u16.to_le_bytes());
    b.extend_from_slice(&0u16.to_le_bytes());
    b.extend_from_slice(&0u64.to_le_bytes());
    b.extend_from_slice(&10_000u64.to_le_bytes());
    b.extend_from_slice(&9_000u64.to_le_bytes());
    b.extend_from_slice(&9_500u64.to_le_bytes());
    b.extend_from_slice(&8_000u64.to_le_bytes());
    b.extend_from_slice(&8_500u64.to_le_bytes());
    b.extend_from_slice(&u64::MAX.to_le_bytes());
    b.extend_from_slice(&u64::MAX.to_le_bytes());
    b
}

fn pair(key: &str, value: &[u8]) -> XattrPair {
    XattrPair { key: key.as_bytes().to_vec(), value: value.to_vec() }
}

fn attributes() -> XattrSet {
    XattrSet {
        size: 600,
        pairs: vec![
            pair("user.colour", b"green"),
            pair("user.col", b"12"),
            pair("security.selinux", b"unconfined"),
        ],
    }
}

fn archive() -> Archive {
    Archive::new_from_file(
        &superblock_bytes(),
        10_000,
        vec![0, 1000, 1001],
        vec![XattrSet { size: 0, pairs: Vec::new() }, attributes()],
    )
    .unwrap()
}

fn inode(kind: InodeType) -> Inode {
    Inode {
        kind,
        mode: 0o644,
        uid_idx: 1,
        gid_idx: 2,
        mod_time: 1_600_000_000,
        inode_number: 42,
        nlink: 3,
        size: 0,
        sparse: 0,
        devno: 0,
        xattr_idx: XATTR_NONE,
        target: Vec::new(),
    }
}

fn symlink(target: &str) -> Inode {
    let mut i = inode(InodeType::Slink);
    i.mode = 0o777;
    i.nlink = 1;
    i.size = target.len() as u64;
    i.target = target.as_bytes().to_vec();
    i
}

fn file(size: u64) -> Inode {
    let mut i = inode(InodeType::File);
    i.nlink = 0;
    i.size = size;
    i
}

fn with_attributes(kind: InodeType) -> Inode {
    let mut i = inode(kind);
    i.xattr_idx = 1;
    i
}

#[test]
fn constants_are_the_platform_ones() {
    assert_eq!(ENOENT, libc::ENOENT);
    assert_eq!(EIO, libc::EIO);
    assert_eq!(EACCES, libc::EACCES);
    assert_eq!(ERANGE, libc::ERANGE);
    assert_eq!(ENODATA, libc::ENODATA);
    assert_eq!(S_IFMT, libc::S_IFMT);
    assert_eq!(S_IFDIR, libc::S_IFDIR);
    assert_eq!(S_IFREG, libc::S_IFREG);
    assert_eq!(S_IFLNK, libc::S_IFLNK);
    assert_eq!(S_IFBLK, libc::S_IFBLK);
    assert_eq!(S_IFCHR, libc::S_IFCHR);
    assert_eq!(S_IFIFO, libc::S_IFIFO);
    assert_eq!(S_IFSOCK, libc::S_IFSOCK);
    assert_eq!(s3archivefs::ops::O_ACCMODE, libc::O_ACCMODE);
    assert_eq!(s3archivefs::ops::O_RDONLY, libc::O_RDONLY);
}

#[test]
fn errors_map_to_error_numbers() {
    assert_eq!(FsError::NotFound.errno(), libc::ENOENT);
    assert_eq!(FsError::Io.errno(), libc::EIO);
    assert_eq!(FsError::ERange.errno(), libc::ERANGE);
    assert_eq!(FsError::NoData.errno(), libc::ENODATA);
    assert_eq!(FsError::Access.errno(), libc::EACCES);
    assert_eq!(FsError::Transport.errno(), libc::EIO);
    assert_eq!(FsError::LockTimeout.errno(), libc::EIO);
    assert_eq!(FsError::Bootstrap.errno(), libc::EIO);
    assert_eq!(FsError::OutOfBounds.errno(), libc::EIO);
    assert_eq!(FsError::NotFound.to_return_code(), -2);
    assert_eq!(FsError::NoData.to_return_code(), -61);
}

#[test]
fn inode_types_and_tags() {
    for tag in 1u16..=14 {
        let t = InodeType::from_tag(tag).unwrap();
        assert_eq!(t.tag(), tag);
        assert_eq!(t.is_extended(), tag >= 8);
    }
    assert_eq!(InodeType::from_tag(0), None);
    assert_eq!(InodeType::from_tag(15), None);
    assert_eq!(InodeType::from_tag(2), Some(InodeType::File));
    assert_eq!(InodeType::from_tag(10), Some(InodeType::ExtSlink));
    assert_eq!(InodeType::ExtSocket.format_bits(), S_IFSOCK);
    assert_eq!(InodeType::Cdev.format_bits(), S_IFCHR);
    assert!(InodeType::ExtFile.is_file() && !InodeType::Dir.is_file());
    assert!(InodeType::ExtDir.is_dir() && !InodeType::File.is_dir());
    assert!(InodeType::Slink.is_symlink() && !InodeType::File.is_symlink());
    assert!(InodeType::ExtBdev.is_device() && !InodeType::Fifo.is_device());
}

#[test]
fn getattr_on_symlink() {
    let a = archive();
    let link = symlink("../target/file");
    let st = a.getattr(Some(&link)).unwrap();
    assert_eq!(st.st_mode & S_IFMT, S_IFLNK);
    assert_eq!(st.st_mode, 0o120777);
    assert_eq!(st.st_size, 14);
    assert_eq!(st.st_atime, 1_600_000_000);
    assert_eq!(st.st_mtime, 1_600_000_000);
    assert_eq!(st.st_ctime, 1_600_000_000);
    assert_eq!(st.st_nlink, 1);
    let buf = a.readlink(Some(&link), 64).unwrap();
    let strlen = buf.iter().position(|b| *b == 0).unwrap();
    assert_eq!(st.st_size as usize, strlen);
}

#[test]
fn stat_of_every_type_names_the_type() {
    let a = archive();
    let kinds = [
        (InodeType::Dir, S_IFDIR),
        (InodeType::File, S_IFREG),
        (InodeType::Slink, S_IFLNK),
        (InodeType::Bdev, S_IFBLK),
        (InodeType::Cdev, S_IFCHR),
        (InodeType::Fifo, S_IFIFO),
        (InodeType::Socket, S_IFSOCK),
        (InodeType::ExtDir, S_IFDIR),
        (InodeType::ExtFile, S_IFREG),
        (InodeType::ExtSlink, S_IFLNK),
        (InodeType::ExtBdev, S_IFBLK),
        (InodeType::ExtCdev, S_IFCHR),
        (InodeType::ExtFifo, S_IFIFO),
        (InodeType::ExtSocket, S_IFSOCK),
    ];
    for (kind, bits) in kinds {
        let st = a.generic_inode_to_stat(&inode(kind));
        assert_eq!(st.st_mode & S_IFMT, bits);
        assert_eq!(st.st_mode & 0o7777, 0o644);
        assert!(st.st_nlink >= 1);
        assert!(st.st_size >= 0);
        assert_eq!(st.st_blksize, 4096);
        assert_eq!(st.st_ino, 42);
        assert_eq!(st.st_uid, 1000);
        assert_eq!(st.st_gid, 1001);
    }
}

#[test]
fn stat_of_regular_files() {
    let a = archive();
    let st = a.generic_inode_to_stat(&file(0));
    assert_eq!((st.st_size, st.st_blocks, st.st_nlink), (0, 0, 1));
    let st = a.generic_inode_to_stat(&file(1));
    assert_eq!((st.st_size, st.st_blocks), (1, 1));
    let st = a.generic_inode_to_stat(&file(512));
    assert_eq!((st.st_size, st.st_blocks), (512, 1));
    let st = a.generic_inode_to_stat(&file(513));
    assert_eq!((st.st_size, st.st_blocks), (513, 2));
    let st = a.generic_inode_to_stat(&file(1_048_576));
    assert_eq!((st.st_size, st.st_blocks), (1_048_576, 2048));

    let mut ext = inode(InodeType::ExtFile);
    ext.size = 10_000;
    ext.sparse = 4_000;
    let st = a.generic_inode_to_stat(&ext);
    assert_eq!((st.st_size, st.st_blocks, st.st_nlink), (10_000, 12, 3));
    ext.sparse = 10_000;
    assert_eq!(a.generic_inode_to_stat(&ext).st_blocks, 0);
    ext.sparse = 10_512;
    assert_eq!(a.generic_inode_to_stat(&ext).st_blocks, -1);
    ext.sparse = 10_511;
    assert_eq!(a.generic_inode_to_stat(&ext).st_blocks, 0);
    ext.sparse = 0;
    ext.size = u64::MAX;
    let st = a.generic_inode_to_stat(&ext);
    assert_eq!(st.st_size, i64::MAX);
    assert_eq!(st.st_blocks, 1i64 << 55);
}

#[test]
fn stat_counts_the_blocks_of_the_attributes() {
    let a = archive();
    let mut ext = with_attributes(InodeType::ExtFile);
    ext.size = 1024;
    let st = a.generic_inode_to_stat(&ext);
    assert_eq!(st.st_blocks, 2 + 2);
    ext.xattr_idx = 0;
    assert_eq!(a.generic_inode_to_stat(&ext).st_blocks, 2);
    let dir = with_attributes(InodeType::ExtDir);
    assert_eq!(a.generic_inode_to_stat(&dir).st_blocks, 2);
    let mut basic = inode(InodeType::Dir);
    basic.xattr_idx = 1;
    assert_eq!(a.generic_inode_to_stat(&basic).st_blocks, 0);
}

#[test]
fn stat_of_devices_and_unknown_owners() {
    let a = archive();
    let mut dev = inode(InodeType::Bdev);
    dev.devno = 0x0801;
    dev.uid_idx = 9;
    dev.gid_idx = 0;
    let st = a.generic_inode_to_stat(&dev);
    assert_eq!(st.st_rdev, 0x0801);
    assert_eq!(st.st_uid, 0);
    assert_eq!(st.st_gid, 0);
    assert_eq!(st.st_size, 0);
    let mut fifo = inode(InodeType::Fifo);
    fifo.devno = 5;
    fifo.size = 77;
    let st = a.generic_inode_to_stat(&fifo);
    assert_eq!(st.st_rdev, 0);
    assert_eq!(st.st_size, 0);
    assert_eq!(a.id_of(1), Some(1000));
    assert_eq!(a.id_of(3), None);
    let direct = inode_stat(&dev, Some(5), None, Some(513));
    assert_eq!((direct.st_uid, direct.st_gid, direct.st_blocks), (5, 0, 2));
}

#[test]
fn getattr_errors() {
    let a = archive();
    assert_eq!(a.getattr(None), Err(FsError::NotFound));
    let mut lost = with_attributes(InodeType::ExtFile);
    lost.xattr_idx = 2;
    assert!(!a.resolves(&lost));
    assert_eq!(a.getattr(Some(&lost)), Err(FsError::Io));
    assert_eq!(a.file_stat(Some(&lost)), None);
    assert_eq!(a.file_stat(None), None);
    assert_eq!(a.print_file_stat(Some(&file(5))), Some(a.generic_inode_to_stat(&file(5))));
    assert_eq!(ops_getattr(&a, None), (-libc::ENOENT, None));
    assert_eq!(ops_getattr(&a, Some(&lost)), (-libc::EIO, None));
    let st = a.generic_inode_to_stat(&file(5));
    assert_eq!(ops_getattr(&a, Some(&file(5))), (0, Some(st)));
}

#[test]
fn readlink_copies_target_and_zero() {
    let a = archive();
    let link = symlink("abc");
    assert_eq!(a.readlink(Some(&link), 4), Ok(vec![b'a', b'b', b'c', 0]));
    assert_eq!(a.readlink(Some(&link), 100), Ok(vec![b'a', b'b', b'c', 0]));
    assert_eq!(a.readlink(Some(&link), 3), Err(FsError::Io));
    assert_eq!(a.readlink(Some(&link), 0), Err(FsError::Io));
    assert_eq!(a.readlink(None, 100), Err(FsError::NotFound));
    assert_eq!(a.readlink(Some(&file(3)), 100), Ok(Vec::new()));
    let mut ext = symlink("xy");
    ext.kind = InodeType::ExtSlink;
    assert_eq!(a.readlink(Some(&ext), 3), Ok(vec![b'x', b'y', 0]));
    let mut short = symlink("xy");
    short.size = 5;
    assert_eq!(a.readlink(Some(&short), 100), Err(FsError::Io));
    assert_eq!(ops_readlink(&a, Some(&link), 4), (0, vec![b'a', b'b', b'c', 0]));
    assert_eq!(ops_readlink(&a, Some(&link), 3), (-libc::EIO, Vec::new()));
    assert_eq!(ops_readlink(&a, None, 3), (-libc::ENOENT, Vec::new()));
}

#[test]
fn getxattr_with_size_zero_returns_the_size_only() {
    let a = archive();
    let f = with_attributes(InodeType::ExtFile);
    let r = a.getxattr(Some(&f), b"security.selinux", 0).unwrap();
    assert_eq!(r.size, 10);
    assert_eq!(r.data.len(), 0);
    assert_eq!(ops_getxattr(&a, Some(&f), b"security.selinux", 0), (10, Vec::new()));
}

#[test]
fn getxattr_copies_when_there_is_room() {
    let a = archive();
    let f = with_attributes(InodeType::ExtFile);
    let r = a.getxattr(Some(&f), b"security.selinux", 10).unwrap();
    assert_eq!((r.size, r.data), (10, b"unconfined".to_vec()));
    let r = a.getxattr(Some(&f), b"security.selinux", 64).unwrap();
    assert_eq!((r.size, r.data), (10, b"unconfined".to_vec()));
    assert_eq!(a.getxattr(Some(&f), b"security.selinux", 9).err(), Some(FsError::ERange));
    assert_eq!(ops_getxattr(&a, Some(&f), b"security.selinux", 9), (-libc::ERANGE, Vec::new()));
    assert_eq!(
        ops_getxattr(&a, Some(&f), b"security.selinux", 10),
        (10, b"unconfined".to_vec())
    );
}

#[test]
fn getxattr_answers_for_the_key_that_is_the_name() {
    let a = archive();
    let f = with_attributes(InodeType::ExtFile);
    let r = a.getxattr(Some(&f), b"user.colour", 16).unwrap();
    assert_eq!(r.data, b"green".to_vec());
    let r = a.getxattr(Some(&f), b"user.col", 16).unwrap();
    assert_eq!((r.size, r.data), (2, b"12".to_vec()));
    let r = a.getxattr(Some(&f), b"user.col", 0).unwrap();
    assert_eq!((r.size, r.data), (2, Vec::new()));
    assert_eq!(a.getxattr(Some(&f), b"user.col", 1).err(), Some(FsError::ERange));
    assert_eq!(a.getxattr(Some(&f), b"user.colour", 4).err(), Some(FsError::ERange));
    assert!(key_selected(b"user.col", b"user.col"));
    assert!(key_selected(b"", b""));
    assert!(!key_selected(b"user.col", b"user.colour"));
    assert!(!key_selected(b"user.colours", b"user.colour"));
    assert!(!key_selected(b"user.cop", b"user.col"));
    assert!(!key_selected(b"", b"x"));
    assert_eq!(find_xattr(&attributes().pairs, b"user.col"), Some(1));
    assert_eq!(find_xattr(&attributes().pairs, b"user.colour"), Some(0));
    assert_eq!(find_xattr(&attributes().pairs, b"security.selinux"), Some(2));
    assert_eq!(find_xattr(&attributes().pairs, b"security"), None);
    assert_eq!(find_xattr(&attributes().pairs, b"trusted"), None);
}

#[test]
fn a_name_that_only_begins_a_key_is_absent() {
    let a = archive();
    let f = with_attributes(InodeType::ExtFile);
    assert_eq!(a.getxattr(Some(&f), b"sec", 16).err(), Some(FsError::NoData));
    assert_eq!(a.getxattr(Some(&f), b"user.co", 16).err(), Some(FsError::NoData));
    assert_eq!(a.getxattr(Some(&f), b"user.co", 0).err(), Some(FsError::NoData));
    assert_eq!(a.getxattr(Some(&f), b"user.colour.", 16).err(), Some(FsError::NoData));
    assert_eq!(ops_getxattr(&a, Some(&f), b"user.co", 16), (-libc::ENODATA, Vec::new()));
    let set = XattrSet { size: 9, pairs: vec![pair("ab", b"long value")] };
    assert_eq!(set.get(b"a", 0).err(), Some(FsError::NoData));
    assert_eq!(set.get(b"ab", 0).map(|r| r.size).ok(), Some(10));
}

#[test]
fn an_earlier_key_that_begins_with_the_name_does_not_answer() {
    let set = XattrSet {
        size: 40,
        pairs: vec![pair("user.ab", b"x"), pair("user.a", b"a longer value")],
    };
    let r = set.get(b"user.a", 0).unwrap();
    assert_eq!((r.size, r.data), (14, Vec::new()));
    assert_eq!(set.get(b"user.a", 5).err(), Some(FsError::ERange));
    let r = set.get(b"user.a", 14).unwrap();
    assert_eq!((r.size, r.data), (14, b"a longer value".to_vec()));
    let r = set.get(b"user.ab", 5).unwrap();
    assert_eq!((r.size, r.data), (1, b"x".to_vec()));
    let twice = XattrSet { size: 8, pairs: vec![pair("k", b"first"), pair("k", b"2")] };
    assert_eq!(twice.get(b"k", 8).map(|r| r.data).ok(), Some(b"first".to_vec()));
}

#[test]
fn getxattr_without_data() {
    let a = archive();
    let f = with_attributes(InodeType::ExtFile);
    assert_eq!(a.getxattr(Some(&f), b"user.absent", 16).err(), Some(FsError::NoData));
    assert_eq!(a.getxattr(Some(&f), b"", 16).err(), Some(FsError::NoData));
    assert_eq!(a.getxattr(None, b"user.colour", 16).err(), Some(FsError::NoData));
    assert_eq!(a.getxattr(Some(&file(1)), b"user.colour", 16).err(), Some(FsError::NoData));
    let mut none = with_attributes(InodeType::ExtDir);
    none.xattr_idx = XATTR_NONE;
    assert_eq!(a.getxattr(Some(&none), b"user.colour", 16).err(), Some(FsError::NoData));
    let mut empty = with_attributes(InodeType::ExtDir);
    empty.xattr_idx = 0;
    assert_eq!(a.getxattr(Some(&empty), b"user.colour", 16).err(), Some(FsError::NoData));
    let mut lost = with_attributes(InodeType::ExtDir);
    lost.xattr_idx = 7;
    assert_eq!(a.getxattr(Some(&lost), b"user.colour", 16).err(), Some(FsError::Io));
    assert_eq!(ops_getxattr(&a, Some(&f), b"", 16), (0, Vec::new()));
    assert_eq!(ops_getxattr(&a, Some(&f), b"user.absent", 16), (-libc::ENODATA, Vec::new()));
    assert_eq!(ops_getxattr(&a, Some(&lost), b"user.colour", 16), (-libc::EIO, Vec::new()));
}

#[test]
fn value_reply_by_buffer_size() {
    let r = value_reply(b"abc", 0).unwrap();
    assert_eq!((r.size, r.data), (3, Vec::new()));
    let r = value_reply(b"abc", 3).unwrap();
    assert_eq!((r.size, r.data), (3, b"abc".to_vec()));
    assert_eq!(value_reply(b"abc", 2).err(), Some(FsError::ERange));
    let r = value_reply(b"", 5).unwrap();
    assert_eq!((r.size, r.data), (0, Vec::new()));
}

#[test]
fn listxattr_with_size_zero_returns_the_length_only() {
    let a = archive();
    let f = with_attributes(InodeType::ExtFile);
    let r = a.listxattr(Some(&f), 0).unwrap();
    assert_eq!(r.total, 12 + 9 + 17);
    assert_eq!(r.data.len(), 0);
    assert_eq!(ops_listxattr(&a, Some(&f), 0), (38, Vec::new()));
}

#[test]
fn listxattr_writes_the_names() {
    let a = archive();
    let f = with_attributes(InodeType::ExtFile);
    let want = b"user.colour\0user.col\0security.selinux\0".to_vec();
    let r = a.listxattr(Some(&f), 38).unwrap();
    assert_eq!((r.total, r.data), (38, want.clone()));
    let r = a.listxattr(Some(&f), 4096).unwrap();
    assert_eq!((r.total, r.data), (38, want.clone()));
    assert_eq!(a.listxattr(Some(&f), 37).err(), Some(FsError::ERange));
    assert_eq!(a.listxattr(None, 64).err(), Some(FsError::NotFound));
    assert_eq!(a.listxattr(Some(&file(1)), 64).err(), Some(FsError::NotFound));
    let mut empty = with_attributes(InodeType::ExtDir);
    empty.xattr_idx = 0;
    let r = a.listxattr(Some(&empty), 64).unwrap();
    assert_eq!((r.total, r.data), (0, Vec::new()));
    let mut lost = with_attributes(InodeType::ExtDir);
    lost.xattr_idx = 7;
    assert_eq!(a.listxattr(Some(&lost), 64).err(), Some(FsError::Io));
    assert_eq!(ops_listxattr(&a, Some(&f), 64), (38, want));
    assert_eq!(ops_listxattr(&a, Some(&f), 10), (-libc::ERANGE, Vec::new()));
    assert_eq!(ops_listxattr(&a, None, 10), (-libc::ENOENT, Vec::new()));
}

fn children() -> Vec<DirEntry> {
    vec![
        DirEntry { name: "zeta".to_string(), inode: file(700) },
        DirEntry { name: "alpha".to_string(), inode: symlink("zeta") },
        DirEntry { name: "sub".to_string(), inode: with_attributes(InodeType::ExtDir) },
    ]
}

#[test]
fn readdir_lists_children_in_entry_order() {
    let a = archive();
    let root = inode(InodeType::Dir);
    let mut reader = a.readdir(Some(&root), children()).unwrap();
    let mut seen = Vec::new();
    while let Some(row) = reader.next() {
        seen.push(row);
    }
    assert_eq!(reader.next(), None);
    let names: Vec<&str> = seen.iter().map(|r| r.0.as_str()).collect();
    assert_eq!(names, vec!["zeta", "alpha", "sub"]);
    for (row, child) in seen.iter().zip(children().iter()) {
        assert_eq!(Ok(row.1), a.getattr(Some(&child.inode)));
    }
    let rows = a.readdir_cb(Some(&root), &children()).unwrap();
    assert_eq!(rows, seen);
    assert_eq!(a.file_list(&children()), seen);
    assert_eq!(a.print_list(&children()), seen);
}

#[test]
fn readdir_of_what_is_no_directory() {
    let a = archive();
    assert!(a.readdir(None, children()).is_none());
    assert!(a.readdir(Some(&file(1)), children()).is_none());
    assert!(a.readdir(Some(&inode(InodeType::ExtDir)), Vec::new()).is_some());
    assert_eq!(a.readdir_cb(None, &children()), Err(FsError::NotFound));
    assert_eq!(a.readdir_cb(Some(&file(1)), &children()), Err(FsError::NotFound));
    assert_eq!(a.readdir_cb(Some(&inode(InodeType::Dir)), &Vec::new()), Ok(Vec::new()));
}

#[test]
fn reader_ends_at_an_entry_it_cannot_resolve() {
    let a = archive();
    let mut entries = children();
    let mut lost = with_attributes(InodeType::ExtFile);
    lost.xattr_idx = 9;
    entries.insert(1, DirEntry { name: "lost".to_string(), inode: lost });
    let mut reader = DirReader::new(&a, entries);
    assert_eq!(reader.next().map(|r| r.0), Some("zeta".to_string()));
    assert_eq!(reader.next(), None);
    assert_eq!(reader.next(), None);
    let mut entries = children();
    let mut lost = with_attributes(InodeType::ExtFile);
    lost.xattr_idx = 9;
    entries.push(DirEntry { name: "lost".to_string(), inode: lost });
    assert_eq!(a.readdir_cb(Some(&inode(InodeType::Dir)), &entries), Err(FsError::Io));
    assert_eq!(a.file_list(&entries), Vec::new());
}

#[test]
fn read_begins_on_regular_files_only() {
    let a = archive();
    assert_eq!(
        a.read(Some(&file(100)), 4096, 10),
        Ok(ReadCursor { offset: 10, off: 0, remain: 4096 })
    );
    assert_eq!(a.read(None, 4096, 0), Err(FsError::NotFound));
    assert_eq!(a.read(Some(&inode(InodeType::Dir)), 4096, 0), Err(FsError::NotFound));
    assert_eq!(a.read(Some(&symlink("x")), 4096, 0), Err(FsError::NotFound));
    assert_eq!(a.extract_one(Some(&file(100))), Ok(100));
    assert_eq!(a.extract_one(Some(&inode(InodeType::Dir))), Err(FsError::NotFound));
    assert_eq!(a.extract_one(None), Err(FsError::NotFound));
}

#[test]
fn read_goes_on_until_done() {
    let mut c = ReadCursor { offset: 10, off: 0, remain: 100 };
    assert_eq!(c.first(), ReadStep::Fetch { at: 10, want: 100 });
    assert_eq!(c.advance(40), ReadStep::Fetch { at: 50, want: 60 });
    assert_eq!(c, ReadCursor { offset: 10, off: 40, remain: 60 });
    assert_eq!(c.advance(60), ReadStep::Done { total: 100 });
    let mut c = ReadCursor { offset: 10, off: 0, remain: 100 };
    assert_eq!(c.advance(30), ReadStep::Fetch { at: 40, want: 70 });
    assert_eq!(c.advance(0), ReadStep::Done { total: 30 });
    let mut c = ReadCursor { offset: 10, off: 0, remain: 100 };
    assert_eq!(c.advance(-5), ReadStep::Failed);
    assert_eq!(c, ReadCursor { offset: 10, off: 0, remain: 100 });
    assert_eq!(c.advance(101), ReadStep::Failed);
    let c = ReadCursor { offset: 0, off: 0, remain: 0 };
    assert_eq!(c.first(), ReadStep::Done { total: 0 });
    let mut c = ReadCursor { offset: 700, off: 0, remain: 64 };
    assert_eq!(c.advance(0), ReadStep::Done { total: 0 });
    let mut c = ReadCursor { offset: u64::MAX - 5, off: 0, remain: 100 };
    assert_eq!(c.advance(10), ReadStep::Failed);
}

#[test]
fn open_is_for_reading_only() {
    assert_eq!(ops_open(libc::O_RDONLY), 0);
    assert_eq!(ops_open(libc::O_RDONLY | libc::O_NONBLOCK), 0);
    assert_eq!(ops_open(libc::O_WRONLY), -libc::EACCES);
    assert_eq!(ops_open(libc::O_RDWR), -libc::EACCES);
    assert_eq!(ops_open(libc::O_RDWR | libc::O_APPEND), -libc::EACCES);
    assert_eq!(open_check(libc::O_RDONLY), Ok(()));
    assert_eq!(open_check(libc::O_WRONLY), Err(FsError::Access));
    assert_eq!(open_check(libc::O_RDWR), Err(FsError::Access));
    assert_eq!(ops_release(), 0);
}

#[test]
fn archive_is_built_from_a_valid_superblock_only() {
    let sb = superblock_bytes();
    let a = Archive::new_from_file(&sb, 10_000, vec![5], Vec::new()).unwrap();
    assert_eq!(a.get_sb().inode_table_start, 8_000);
    assert_eq!(a.get_archive_file_size(), 10_000);
    assert!(Archive::new_from_file(&sb[..95], 10_000, Vec::new(), Vec::new()).is_none());
    assert!(Archive::new_from_file(&sb, 7_999, Vec::new(), Vec::new()).is_none());
    assert!(Archive::new_from_file(&sb, 8_000, Vec::new(), Vec::new()).is_some());
    let mut bad = sb.clone();
    bad[0] = 0;
    assert!(Archive::new_from_file(&bad, 10_000, Vec::new(), Vec::new()).is_none());
    let mut bad = sb.clone();
    bad[22] = 13;
    assert!(Archive::new_from_file(&bad, 10_000, Vec::new(), Vec::new()).is_none());
    assert!(Archive::new_from_sparse(&sb, 10_000, Vec::new(), Vec::new(), true).is_some());
    assert!(Archive::new(&sb, 10_000, Vec::new(), Vec::new()).is_some());
    let _: Option<Stat> = None;
}

#[test]
fn walk_records_paths_from_the_root() {
    let mut walk = TreeWalk::new("");
    assert_eq!(walk.next_dir(), Some("".to_string()));
    walk.visit(
        "",
        vec![
            DirEntry { name: "etc".to_string(), inode: inode(InodeType::Dir) },
            DirEntry { name: "readme".to_string(), inode: file(12) },
            DirEntry { name: "usr".to_string(), inode: inode(InodeType::ExtDir) },
        ],
    );
    assert_eq!(walk.next_dir(), Some("usr".to_string()));
    walk.visit("usr", vec![DirEntry { name: "bin".to_string(), inode: inode(InodeType::Dir) }]);
    assert_eq!(walk.next_dir(), Some("usr/bin".to_string()));
    walk.visit("usr/bin", vec![DirEntry { name: "sh".to_string(), inode: symlink("dash") }]);
    assert_eq!(walk.next_dir(), Some("etc".to_string()));
    walk.visit("etc", Vec::new());
    assert_eq!(walk.next_dir(), None);
    assert_eq!(walk.next_dir(), None);
    let rows = walk.finish();
    let names: Vec<&str> = rows.iter().map(|r| r.name.as_str()).collect();
    assert_eq!(names, vec!["etc", "readme", "usr", "usr/bin", "usr/bin/sh"]);
    assert_eq!(rows[1].inode.size, 12);
    assert_eq!(rows[4].inode.target, b"dash".to_vec());
    let listed = archive().file_list(&rows);
    assert_eq!(listed.len(), 5);
    assert_eq!(listed[4].0, "usr/bin/sh");
    assert_eq!(listed[4].1.st_mode & S_IFMT, S_IFLNK);
}

#[test]
fn walk_below_a_directory() {
    let mut walk = TreeWalk::new("opt/data");
    assert_eq!(walk.next_dir(), Some("opt/data".to_string()));
    walk.visit("opt/data", vec![DirEntry { name: "x".to_string(), inode: file(1) }]);
    assert_eq!(walk.next_dir(), None);
    let rows = walk.finish();
    assert_eq!(rows.len(), 1);
    assert_eq!(rows[0].name, "opt/data/x");
}

fn through_the_back_end<A: ArchiveFs>(a: &A) -> (u64, u64, Option<Stat>, usize) {
    (
        a.get_sb().inode_table_start,
        a.get_archive_file_size(),
        a.file_stat(Some(&file(9))),
        a.file_list(&children()).len(),
    )
}

#[test]
fn archive_is_a_back_end() {
    let a = archive();
    let (start, size, st, rows) = through_the_back_end(&a);
    assert_eq!((start, size, rows), (8_000, 10_000, 3));
    assert_eq!(st, Some(a.generic_inode_to_stat(&file(9))));
    assert_eq!(ArchiveFs::extract_one(&a, Some(&file(9))), Ok(9));
    assert_eq!(ArchiveFs::print_list(&a, &children()).len(), 3);
    assert_eq!(ArchiveFs::print_file_stat(&a, None), None);
}
