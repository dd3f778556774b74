use s3archivefs::errors::FsError;
use s3archivefs::hole::HoleDetectMode;
use s3archivefs::hook_helper::Context;
use s3archivefs::repo::{
    range_header, FileLock, Lifecycle, LifecycleEvent, Local, LockAttempt, LockPoll, Remote,
    LOCK_TIMEOUT_SECS, SUPERBLOCK_KEY, SUPERBLOCK_KEY_STORED,
};
use s3archivefs::squashfs::Archive;
use s3archivefs::superblock::{Compressor, Superblock, SB_SIZE};
use s3archivefs::text::decimal_string;

fn superblock_bytes(block_log: u16, block_size: u32, inode_table_start: u64) -> Vec<u8> {
    let mut b = Vec::new();
    b.extend_from_slice(&0x7371_7368u32.to_le_bytes());
    b.extend_from_slice(&1234u32.to_le_bytes());
    b.extend_from_slice(&1_700_000_000u32.to_le_bytes());
    b.extend_from_slice(&block_size.to_le_bytes());
    b.extend_from_slice(&9u32.to_le_bytes());
    b.extend_from_slice(&4u16.to_le_bytes());
    b.extend_from_slice(&block_log.to_le_bytes());
    b.extend_from_slice(&0x00c0u16.to_le_bytes());
    b.extend_from_slice(&3u16.to_le_bytes());
    b.extend_from_slice(&4u16.to_le_bytes());
    b.extend_from_slice(&0u16.to_le_bytes());
    b.extend_from_slice(&0x0102_0304_0506_0708u64.to_le_bytes());
    b.extend_from_slice(&2_000_000u64.to_le_bytes());
    b.extend_from_slice(&1_900_000u64.to_le_bytes());
    b.extend_from_slice(&u64::MAX.to_le_bytes());
    b.extend_from_slice(&inode_table_start.to_le_bytes());
    b.extend_from_slice(&1_600_000u64.to_le_bytes());
    b.extend_from_slice(&1_700_000u64.to_le_bytes());
    b.extend_from_slice(&u64::MAX.to_le_bytes());
    b
}

#[test]
fn superblock_fields_are_little_endian() {
    let b = superblock_bytes(17, 131_072, 1_500_000);
    assert_eq!(b.len(), SB_SIZE);
    let sb = Superblock::decode(&b).unwrap();
    assert_eq!(sb.magic, 0x7371_7368);
    assert_eq!(&b[0..4], b"hsqs");
    assert_eq!(sb.inode_count, 1234);
    assert_eq!(sb.modification_time, 1_700_000_000);
    assert_eq!(sb.block_size, 131_072);
    assert_eq!(sb.fragment_entry_count, 9);
    assert_eq!(sb.compression_id, 4);
    assert_eq!(sb.block_log, 17);
    assert_eq!(sb.flags, 0x00c0);
    assert_eq!(sb.id_count, 3);
    assert_eq!((sb.version_major, sb.version_minor), (4, 0));
    assert_eq!(sb.root_inode_ref, 0x0102_0304_0506_0708);
    assert_eq!(sb.bytes_used, 2_000_000);
    assert_eq!(sb.id_table_start, 1_900_000);
    assert_eq!(sb.xattr_id_table_start, u64::MAX);
    assert_eq!(sb.inode_table_start, 1_500_000);
    assert_eq!(sb.directory_table_start, 1_600_000);
    assert_eq!(sb.fragment_table_start, 1_700_000);
    assert_eq!(sb.export_table_start, u64::MAX);
    assert!(sb.is_valid());
    assert_eq!(Superblock::decode(&b[..95]), None);
    let mut long = b.clone();
    long.push(0);
    assert_eq!(Superblock::decode(&long), None);
    assert_eq!(Superblock::decode(&[]), None);
}

#[test]
fn superblock_validity() {
    let ok = Superblock::decode(&superblock_bytes(12, 4096, 100)).unwrap();
    assert!(ok.is_valid());
    assert!(Superblock::decode(&superblock_bytes(20, 1 << 20, 100)).unwrap().is_valid());
    assert!(!Superblock::decode(&superblock_bytes(11, 2048, 100)).unwrap().is_valid());
    assert!(!Superblock::decode(&superblock_bytes(21, 1 << 21, 100)).unwrap().is_valid());
    assert!(!Superblock::decode(&superblock_bytes(12, 4097, 100)).unwrap().is_valid());
    assert!(!Superblock::decode(&superblock_bytes(13, 4096, 100)).unwrap().is_valid());
    let mut sb = ok;
    sb.magic = 0;
    assert!(!sb.is_valid());
    let mut sb = ok;
    sb.version_major = 3;
    assert!(!sb.is_valid());
    let mut sb = ok;
    sb.version_minor = 1;
    assert!(!sb.is_valid());
}

#[test]
fn superblock_report() {
    let sb = Superblock::decode(&superblock_bytes(17, 131_072, 1_500_000)).unwrap();
    let r = sb.report(2_000_000);
    assert_eq!(r.archive_size, 2_000_000);
    assert_eq!(r.metadata_size, 500_000);
    assert_eq!(r.inode_count, 1234);
    assert_eq!(r.block_size, 131_072);
    assert_eq!(r.compressor, Some(Compressor::Xz));
    assert_eq!(r.bytes_used, 2_000_000);
    assert_eq!(r.inode_table, 1_500_000);
    assert_eq!(r.dir_table, 1_600_000);
    assert_eq!(r.fragment_table, 1_700_000);
    assert_eq!(r.export_table, 0);
    assert_eq!(r.id_table, 1_900_000);
    assert_eq!(r.xattr_table, 0);
    let names: Vec<&str> = [
        Compressor::Zlib,
        Compressor::Lzma,
        Compressor::Lzo,
        Compressor::Xz,
        Compressor::Lz4,
        Compressor::Zstd,
    ]
    .iter()
    .map(|c| c.name())
    .collect();
    assert_eq!(names, vec!["ZLIB", "LZMA", "LZO", "XZ", "LZ4", "ZSTD"]);
    let mut other = sb;
    for (id, want) in [
        (1u16, Some(Compressor::Zlib)),
        (2, Some(Compressor::Lzma)),
        (3, Some(Compressor::Lzo)),
        (5, Some(Compressor::Lz4)),
        (6, Some(Compressor::Zstd)),
        (0, None),
        (7, None),
    ] {
        other.compression_id = id;
        assert_eq!(other.compressor(), want);
    }
}

#[test]
fn metadata_carries_the_superblock() {
    let r = Remote::new("bucket", "dir/archive.sqsh");
    assert_eq!(r.bucket(), "bucket");
    assert_eq!(r.key(), "dir/archive.sqsh");
    let sb = superblock_bytes(12, 4096, 1_000_000);
    let (key, text) = r.intall_archivefs(&sb).unwrap();
    assert_eq!(key, SUPERBLOCK_KEY);
    assert_eq!(key, "S3ARCHIVEFS-SUPERBLOCK");
    assert_eq!(key.to_lowercase(), SUPERBLOCK_KEY_STORED);
    assert_eq!(text.len(), 128);
    assert_ne!(text.as_bytes(), &sb[..]);
    assert!(text.starts_with("aHNxc9IEAAA"));
    assert_eq!(r.get_metadata(2_000_000, Some(&text)), Ok((sb.clone(), 2_000_000)));
    assert_eq!(r.intall_archivefs(&sb[..90]), Err(FsError::Io));
    assert_eq!(r.intall_archivefs(&[]), Err(FsError::Io));
}

#[test]
fn metadata_failures_are_bootstrap_failures() {
    let r = Remote::new("bucket", "key");
    assert_eq!(r.get_metadata(10, None), Err(FsError::Bootstrap));
    assert_eq!(r.get_metadata(10, Some("")), Err(FsError::Bootstrap));
    assert_eq!(r.get_metadata(10, Some("not base64!")), Err(FsError::Bootstrap));
    assert_eq!(r.get_metadata(10, Some("aGVsbG8=")), Err(FsError::Bootstrap));
    let long = base64::encode(vec![1u8; 97]);
    assert_eq!(r.get_metadata(10, Some(&long)), Err(FsError::Bootstrap));
    let exact = base64::encode(vec![1u8; 96]);
    assert_eq!(r.get_metadata(-1, Some(&exact)), Ok((vec![1u8; 96], -1)));
    assert_eq!(Remote::accept_metadata(None, 5), Err(FsError::Bootstrap));
    assert_eq!(Remote::accept_metadata(Some(None), 5), Err(FsError::Bootstrap));
    assert_eq!(Remote::accept_metadata(Some(Some(vec![0; 95])), 5), Err(FsError::Bootstrap));
    assert_eq!(Remote::accept_metadata(Some(Some(vec![9; 96])), 5), Ok((vec![9; 96], 5)));
}

#[test]
fn range_requests_are_inclusive() {
    let r = Remote::new("bucket", "key");
    assert_eq!(r.get_range(0, 65535), "bytes=0-65535");
    assert_eq!(r.get_range(983_040, 1_048_575), "bytes=983040-1048575");
    assert_eq!(range_header(7, 7), "bytes=7-7");
    assert_eq!(range_header(0, u64::MAX), "bytes=0-18446744073709551615");
    assert_eq!(decimal_string(0), "0");
    assert_eq!(decimal_string(9), "9");
    assert_eq!(decimal_string(10), "10");
    assert_eq!(decimal_string(1_000_000), "1000000");
}

#[test]
fn bootstrap_plan() {
    let sb = superblock_bytes(12, 4096, 1_000_000);
    assert!(Local::needs_bootstrap(false, false));
    assert!(Local::needs_bootstrap(false, true));
    assert!(Local::needs_bootstrap(true, true));
    assert!(!Local::needs_bootstrap(true, false));
    let plan = Local::plan_bootstrap(&sb, 1_048_576, Some(65536), true).unwrap();
    assert_eq!(plan.length, 1_048_576);
    assert_eq!(plan.superblock, sb);
    assert_eq!(plan.chunk_log, 16);
    assert_eq!(plan.meta_start, 983_040);
    assert_eq!(plan.range_end, 1_048_575);
    assert_eq!(plan.range, "bytes=983040-1048575");
    let plan = Local::plan_bootstrap(&sb, 1_048_576, None, true).unwrap();
    assert_eq!((plan.chunk_log, plan.meta_start), (12, 999_424));
    assert_eq!(plan.range, "bytes=999424-1048575");
    let plan = Local::plan_bootstrap(&sb, 1_048_576, Some(usize::MAX), true).unwrap();
    assert_eq!((plan.chunk_log, plan.meta_start), (32, 0));
    assert_eq!(plan.range, "bytes=0-1048575");
}

#[test]
fn bootstrap_failures() {
    let sb = superblock_bytes(12, 4096, 1_000_000);
    assert_eq!(Local::plan_bootstrap(&sb, 1_048_576, None, false).err(), Some(FsError::Bootstrap));
    assert_eq!(Local::plan_bootstrap(&sb, -1, None, true).err(), Some(FsError::Bootstrap));
    assert_eq!(Local::plan_bootstrap(&sb, 0, None, true).err(), Some(FsError::Bootstrap));
    assert_eq!(Local::plan_bootstrap(&sb, 1_000_000, None, true).err(), Some(FsError::Bootstrap));
    assert!(Local::plan_bootstrap(&sb, 1_000_001, None, true).is_ok());
    assert_eq!(
        Local::plan_bootstrap(&sb[..50], 1_048_576, None, true).err(),
        Some(FsError::Bootstrap)
    );
    let bad = superblock_bytes(12, 8192, 1_000_000);
    assert_eq!(Local::plan_bootstrap(&bad, 1_048_576, None, true).err(), Some(FsError::Bootstrap));
    let tiny = superblock_bytes(12, 4096, 10);
    assert_eq!(Local::plan_bootstrap(&tiny, 50, None, true).err(), Some(FsError::Bootstrap));
}

fn local(mode: HoleDetectMode, chunk: Option<usize>, remote: bool) -> Local {
    let sb = superblock_bytes(12, 4096, 1_000_000);
    let archive = Archive::new_from_file(&sb, 1_048_576, vec![0], Vec::new()).unwrap();
    let r = if remote { Some(Remote::new("bucket", "key")) } else { None };
    Local::new("/var/cache/a.sqsh", chunk, mode, r, archive).unwrap()
}

#[test]
fn local_describes_the_cache() {
    let l = local(HoleDetectMode::ALLZERO, Some(65536), true);
    assert_eq!(l.hdmode(), HoleDetectMode::ALLZERO);
    assert_eq!(
        l.context(),
        Context {
            hdmode: HoleDetectMode::ALLZERO,
            meta_start: 1_000_000,
            length: 1_048_576,
            chunk_log: 16,
            has_remote: true,
        }
    );
    assert_eq!(l.filepath(), "/var/cache/a.sqsh");
    assert_eq!(l.remote().map(|r| r.key().to_string()), Some("key".to_string()));
    assert_eq!(l.get_arcfs().get_archive_file_size(), 1_048_576);
    assert!(l.is_metadata_area(1_000_000));
    assert!(l.is_metadata_area(1_048_576));
    assert!(!l.is_metadata_area(999_999));
    assert!(!l.is_metadata_area(0));
    let report = l.print_superblock();
    assert_eq!((report.archive_size, report.metadata_size), (1_048_576, 48_576));
    let l = local(HoleDetectMode::LSEEK, None, false);
    assert_eq!(l.hdmode(), HoleDetectMode::LSEEK);
    assert_eq!(l.context().chunk_log, 12);
    assert!(!l.context().has_remote);
    assert!(l.remote().is_none());
}

#[test]
fn local_needs_a_sound_archive() {
    let sb = Superblock::decode(&superblock_bytes(12, 4096, 1_000_000)).unwrap();
    let mut unsound = sb;
    unsound.block_size = 5000;
    let archive = Archive { sb: unsound, file_size: 1_048_576, idtbl: vec![], xattrs: vec![] };
    assert_eq!(
        Local::new("/c", None, HoleDetectMode::LSEEK, None, archive).err(),
        Some(FsError::Bootstrap)
    );
    let archive = Archive { sb, file_size: 999_999, idtbl: vec![], xattrs: vec![] };
    assert_eq!(
        Local::new("/c", None, HoleDetectMode::LSEEK, None, archive).err(),
        Some(FsError::Bootstrap)
    );
}

#[test]
fn fill_plans() {
    let l = local(HoleDetectMode::LSEEK, Some(65536), true);
    let p = l.request_remote_data_task(60000, 20000).unwrap();
    assert_eq!((p.window.start, p.window.end), (0, 131_072));
    assert_eq!(p.range, "bytes=0-131071");
    let p = l.request_remote_data_task(96, 10).unwrap();
    assert_eq!(p.range, "bytes=0-65535");
    let p = l.request_remote_data_task(1_048_000, 576).unwrap();
    assert_eq!((p.window.start, p.window.end), (983_040, 1_048_576));
    assert_eq!(p.range, "bytes=983040-1048575");
    let p = l.request_remote_data_task(1_048_000, 100_000).unwrap();
    assert_eq!(p.range, "bytes=983040-1048575");
    assert!(l.request_remote_data_task(2_000_000, 10).is_none());
    assert!(l.request_remote_data_task(65536, 0).is_none());
    let l = local(HoleDetectMode::LSEEK, Some(65536), false);
    assert!(l.request_remote_data_task(60000, 20000).is_none());
}

#[test]
fn lock_wait() {
    assert_eq!(LOCK_TIMEOUT_SECS, 10);
    let lock = FileLock::new(LOCK_TIMEOUT_SECS * 1000);
    assert_eq!(lock.timeout_ms, 10_000);
    assert_eq!(lock.poll(LockAttempt::Acquired, 0), LockPoll::Locked);
    assert_eq!(lock.poll(LockAttempt::Acquired, 20_000), LockPoll::Locked);
    assert_eq!(lock.poll(LockAttempt::Failed, 0), LockPoll::Failed(FsError::Io));
    assert_eq!(lock.poll(LockAttempt::WouldBlock, 0), LockPoll::Pending);
    assert_eq!(lock.poll(LockAttempt::WouldBlock, 9_999), LockPoll::Pending);
    assert_eq!(lock.poll(LockAttempt::WouldBlock, 10_000), LockPoll::Failed(FsError::LockTimeout));
    assert_eq!(lock.poll(LockAttempt::WouldBlock, 10_001), LockPoll::Failed(FsError::LockTimeout));
}

#[test]
fn superblock_copies_must_agree() {
    let sb = superblock_bytes(12, 4096, 1_000_000);
    let plan = Local::plan_bootstrap(&sb, 1_048_576, Some(65536), true).unwrap();
    assert_eq!(plan.head_end, 95);
    assert_eq!(plan.head_range, "bytes=0-95");
    assert_eq!(Local::finish_bootstrap(&plan, &sb.clone()), Ok(()));
    let mut other = sb.clone();
    other[95] ^= 1;
    assert_eq!(Local::finish_bootstrap(&plan, &other), Err(FsError::Bootstrap));
    let mut other = sb.clone();
    other[0] ^= 1;
    assert_eq!(Local::finish_bootstrap(&plan, &other), Err(FsError::Bootstrap));
    assert_eq!(Local::finish_bootstrap(&plan, &sb[..95]), Err(FsError::Bootstrap));
    assert_eq!(Local::finish_bootstrap(&plan, &[]), Err(FsError::Bootstrap));
    let mut long = sb.clone();
    long.push(0);
    assert_eq!(Local::finish_bootstrap(&plan, &long), Err(FsError::Bootstrap));
    let start = Lifecycle::Uninitialized;
    assert_eq!(start.after_bootstrap(&plan, &sb), Lifecycle::Ready);
    assert_eq!(start.after_bootstrap(&plan, &other), Lifecycle::Failed);
    assert_eq!(Lifecycle::Failed.after_bootstrap(&plan, &sb), Lifecycle::Failed);
    let whole = Local::plan_bootstrap(&sb, 1_048_576, Some(1 << 20), true).unwrap();
    assert_eq!(whole.meta_start, 0);
    assert_eq!(whole.head_range, "bytes=0-95");
}

#[test]
fn range_failures() {
    assert_eq!(Remote::range_failure(Some(416)), FsError::OutOfBounds);
    assert_eq!(Remote::range_failure(Some(500)), FsError::Transport);
    assert_eq!(Remote::range_failure(Some(403)), FsError::Transport);
    assert_eq!(Remote::range_failure(None), FsError::Transport);
}

#[test]
fn life_of_a_cache() {
    let built = LifecycleEvent::Bootstrapped { ok: true };
    let broken = LifecycleEvent::Bootstrapped { ok: false };
    let start = Lifecycle::Uninitialized;
    assert_eq!(start.next(built), Lifecycle::Ready);
    assert_eq!(start.next(broken), Lifecycle::Failed);
    assert_eq!(start.next(LifecycleEvent::Destroyed), Lifecycle::Uninitialized);
    assert_eq!(Lifecycle::Ready.next(LifecycleEvent::Destroyed), Lifecycle::Closed);
    assert_eq!(Lifecycle::Ready.next(built), Lifecycle::Ready);
    assert_eq!(Lifecycle::Ready.next(broken), Lifecycle::Ready);
    for event in [built, broken, LifecycleEvent::Destroyed] {
        assert_eq!(Lifecycle::Failed.next(event), Lifecycle::Failed);
        assert_eq!(Lifecycle::Closed.next(event), Lifecycle::Closed);
    }
    assert!(Lifecycle::Ready.serves());
    assert!(!Lifecycle::Uninitialized.serves());
    assert!(!Lifecycle::Failed.serves());
    assert!(!Lifecycle::Closed.serves());
}
