//! The two ends of the cache: the remote object and the local sparse file.

use crate::chunk::{align_down, align_down_spec, chunk_bytes, chunk_log, chunk_log_spec, fill_window, fill_window_spec, FillWindow, MAX_CHUNK_LOG};
use crate::codec::{base64_decode, base64_decoded, base64_encode, base64_encoded};
use crate::errors::FsError;
use crate::hole::HoleDetectMode;
use crate::hook_helper::Context;
use crate::inode::Inode;
use crate::squashfs::{all_resolve, is_listing, Archive, DirEntry};
use crate::stat::Stat;
use crate::superblock::{Superblock, SuperblockReport, SB_SIZE};
use crate::text::{decimal, push_decimal};
use vstd::prelude::*;
use vstd::string::StringExecFns;

verus! {

/// The user-metadata key under which an installed object carries its superblock.
pub const SUPERBLOCK_KEY: &'static str = "S3ARCHIVEFS-SUPERBLOCK";

/// The same key as the object store hands it back: in lower case.
pub const SUPERBLOCK_KEY_STORED: &'static str = "s3archivefs-superblock";

/// The seconds a fill waits for the cache file's lock.
pub const LOCK_TIMEOUT_SECS: u64 = 10;

/// The text of the range header that asks for bytes `start` to `end`, both included.
pub open spec fn range_header_spec(start: u64, end: u64) -> Seq<char> {
    "bytes="@ + decimal(start as nat) + "-"@ + decimal(end as nat)
}

/// Writes the range header that asks for bytes `start` to `end`, both included.
pub fn range_header(start: u64, end: u64) -> (s: String)
    ensures
        s@ == range_header_spec(start, end),
{
    let mut s = String::from_str("bytes=");
    push_decimal(&mut s, start);
    s.append("-");
    push_decimal(&mut s, end);
    s
}

/// The remote object that holds the archive.
#[derive(Debug)]
pub struct Remote {
    bucket: String,
    key: String,
}

/// What the remote object's metadata says of the archive, once the
/// superblock text has been decoded: the superblock bytes and the
/// object's length, or a bootstrap failure where the key is absent, the
/// text encodes nothing or encodes another number of bytes than a
/// superblock has.
pub open spec fn metadata_spec(decoded: Option<Option<Seq<u8>>>, content_length: i64) -> Result<
    (Seq<u8>, i64),
    FsError,
> {
    match decoded {
        Some(Some(bytes)) => if bytes.len() == SB_SIZE {
            Ok((bytes, content_length))
        } else {
            Err(FsError::Bootstrap)
        },
        _ => Err(FsError::Bootstrap),
    }
}

/// `r` is the outcome `want`, the bytes taken by their view.
pub open spec fn is_metadata_outcome(
    r: Result<(Vec<u8>, i64), FsError>,
    want: Result<(Seq<u8>, i64), FsError>,
) -> bool {
    match r {
        Ok(pair) => want == Ok::<(Seq<u8>, i64), FsError>((pair.0@, pair.1)),
        Err(e) => want == Err::<(Seq<u8>, i64), FsError>(e),
    }
}

impl Remote {
    /// The remote object `key` in `bucket`.
    pub fn new(bucket: &str, key: &str) -> (r: Remote)
        ensures
            r.bucket_spec() == bucket@,
            r.key_spec() == key@,
    {
        Remote { bucket: String::from_str(bucket), key: String::from_str(key) }
    }

    /// The name of the container.
    pub closed spec fn bucket_spec(self) -> Seq<char> {
        self.bucket@
    }

    /// The name of the object.
    pub closed spec fn key_spec(self) -> Seq<char> {
        self.key@
    }

    /// The name of the container.
    pub fn bucket(&self) -> (s: &str)
        ensures
            s@ == self.bucket_spec(),
    {
        self.bucket.as_str()
    }

    /// The name of the object.
    pub fn key(&self) -> (s: &str)
        ensures
            s@ == self.key_spec(),
    {
        self.key.as_str()
    }

    /// Judges the decoded superblock text of an object of `content_length`
    /// bytes. `decoded` is nothing where the metadata lacks the key, and
    /// holds nothing where the text under the key is not valid base64.
    pub fn accept_metadata(decoded: Option<Option<Vec<u8>>>, content_length: i64) -> (r: Result<
        (Vec<u8>, i64),
        FsError,
    >)
        ensures
            is_metadata_outcome(
                r,
                metadata_spec(
                    match decoded {
                        Some(Some(b)) => Some(Some(b@)),
                        Some(None) => Some(None),
                        None => None,
                    },
                    content_length,
                ),
            ),
    {
        match decoded {
            Some(Some(bytes)) => {
                if bytes.len() == SB_SIZE {
                    Ok((bytes, content_length))
                } else {
                    Err(FsError::Bootstrap)
                }
            },
            _ => Err(FsError::Bootstrap),
        }
    }

    /// Reads the superblock out of the answer to a metadata request: the
    /// object's length and the text stored under the superblock key, if any.
    ///
    /// Yields the decoded superblock bytes and the length; fails with
    /// `Bootstrap` where the key is absent, the text is not valid base64 or
    /// does not decode to exactly the bytes of a superblock.
    pub fn get_metadata(&self, content_length: i64, encoded: Option<&str>) -> (r: Result<
        (Vec<u8>, i64),
        FsError,
    >)
        ensures
            is_metadata_outcome(
                r,
                metadata_spec(
                    match encoded {
                        Some(text) => Some(base64_decoded(text@)),
                        None => None,
                    },
                    content_length,
                ),
            ),
    {
        let decoded = match encoded {
            None => None,
            Some(text) => match base64_decode(text) {
                Ok(bytes) => Some(Some(bytes)),
                Err(_) => Some(None),
            },
        };
        Self::accept_metadata(decoded, content_length)
    }

    /// The failure that a range request ends in: out of bounds where the
    /// server refuses the range, which it does with status 416, and a
    /// transport failure for anything else.
    pub fn range_failure(status: Option<u16>) -> (e: FsError)
        ensures
            e == if status == Some(416u16) {
                FsError::OutOfBounds
            } else {
                FsError::Transport
            },
    {
        match status {
            Some(code) => if code == 416 {
                FsError::OutOfBounds
            } else {
                FsError::Transport
            },
            None => FsError::Transport,
        }
    }

    /// The range header of the request for bytes `start` to `end`, both included.
    pub fn get_range(&self, start: u64, end: u64) -> (header: String)
        ensures
            header@ == range_header_spec(start, end),
    {
        range_header(start, end)
    }

    /// The user metadata under which an archive whose file begins with
    /// `head` is installed: the superblock key and the base64 text of the
    /// superblock. `head` must be exactly the superblock's bytes; anything
    /// else is an I/O failure, as a short read of the file is.
    pub fn intall_archivefs(&self, head: &[u8]) -> (r: Result<(String, String), FsError>)
        ensures
            match r {
                Ok(pair) => head@.len() == SB_SIZE && pair.0@ == SUPERBLOCK_KEY@ && pair.1@
                    == base64_encoded(head@),
                Err(e) => head@.len() != SB_SIZE && e == FsError::Io,
            },
    {
        if head.len() != SB_SIZE {
            return Err(FsError::Io);
        }
        let encoded = base64_encode(head);
        Ok((String::from_str(SUPERBLOCK_KEY), encoded))
    }
}

/// What bootstrap does to build a fresh cache, in order: create the sparse
/// file of `length` bytes, write `superblock` at offset zero, fetch the
/// bytes `meta_start` to `range_end` with the header `range` and write
/// them at `meta_start`, and last fetch the object's own head, the bytes
/// zero to `head_end`, with the header `head_range` and hand it to
/// [`Local::finish_bootstrap`], which says whether the cache stands.
#[derive(Debug)]
pub struct BootstrapPlan {
    /// The length of the remote object and of the cache file.
    pub length: u64,
    /// The superblock bytes, as the object's metadata carries them.
    pub superblock: Vec<u8>,
    /// The chunk exponent the cache is built with.
    pub chunk_log: u32,
    /// The start of the inode table, rounded down to a chunk boundary.
    pub meta_start: u64,
    /// The last byte of the object.
    pub range_end: u64,
    /// The range header of the metadata fetch.
    pub range: String,
    /// The last byte of the object's head: of the superblock it begins with.
    pub head_end: u64,
    /// The range header of the fetch of the head.
    pub head_range: String,
}

/// The length, chunk exponent and metadata start of the cache that
/// bootstrap builds for a superblock, an object of `filesize` bytes and a
/// chunk-size hint. There is none without a remote object, for a
/// superblock that the format does not allow, and for an object too short
/// to hold the superblock and an inode table.
pub open spec fn bootstrap_of(sb: Superblock, filesize: i64, chunk_size: Option<u64>, has_remote: bool) -> Option<
    (u64, u32, u64),
> {
    if !has_remote || filesize < SB_SIZE || !sb.is_valid_spec() || sb.inode_table_start
        >= filesize {
        None
    } else {
        let log = chunk_log_spec(sb.block_log, sb.block_size, chunk_size);
        Some(
            (
                filesize as u64,
                log,
                align_down_spec(sb.inode_table_start as int, chunk_bytes(log)) as u64,
            ),
        )
    }
}

/// The length, chunk exponent and metadata start of the cache that
/// bootstrap builds from the superblock bytes `sb_bin` of the object's
/// metadata. There is none for bytes that are no superblock.
pub open spec fn bootstrap_spec(sb_bin: Seq<u8>, filesize: i64, chunk_size: Option<u64>, has_remote: bool) -> Option<
    (u64, u32, u64),
> {
    if sb_bin.len() != SB_SIZE {
        None
    } else {
        bootstrap_of(Superblock::decode_spec(sb_bin), filesize, chunk_size, has_remote)
    }
}

/// One fill: the interval to fetch and the range header that asks for it.
#[derive(Debug)]
pub struct FillPlan {
    pub window: FillWindow,
    pub range: String,
}

/// The chunk-size hint as a 64-bit number.
pub open spec fn hint_spec(opt_chunk_size: Option<usize>) -> Option<u64> {
    match opt_chunk_size {
        Some(x) => Some(x as u64),
        None => None,
    }
}

fn hint(opt_chunk_size: Option<usize>) -> (r: Option<u64>)
    ensures
        r == hint_spec(opt_chunk_size),
{
    match opt_chunk_size {
        Some(x) => Some(x as u64),
        None => None,
    }
}

/// The local cache of one archive.
#[derive(Debug)]
pub struct Local {
    remote: Option<Remote>,
    filepath: String,
    arcfs: Archive,
    sb: Superblock,
    hdmode: HoleDetectMode,
    chunk_log: u32,
}

impl Local {
    #[verifier::type_invariant]
    spec fn sound(self) -> bool {
        &&& self.chunk_log <= MAX_CHUNK_LOG
        &&& self.sb == self.arcfs.sb
        &&& self.arcfs.well_formed()
    }

    /// What the read callback knows of this cache.
    pub closed spec fn context_spec(self) -> Context {
        Context {
            hdmode: self.hdmode,
            meta_start: self.sb.inode_table_start,
            length: self.arcfs.file_size,
            chunk_log: self.chunk_log,
            has_remote: self.remote is Some,
        }
    }

    /// The archive over the cache file.
    pub closed spec fn archive_spec(self) -> Archive {
        self.arcfs
    }

    /// The path of the cache file.
    pub closed spec fn filepath_spec(self) -> Seq<char> {
        self.filepath@
    }

    /// The remote object, if the cache has one.
    pub closed spec fn remote_spec(self) -> Option<Remote> {
        self.remote
    }

    /// Ends a bootstrap: holds the object's own head, as fetched, against
    /// the superblock that the object's metadata carried and that the plan
    /// wrote into the cache. The two copies must agree byte for byte; where
    /// they differ the bootstrap has failed and the cache must not be used.
    pub fn finish_bootstrap(plan: &BootstrapPlan, head: &[u8]) -> (r: Result<(), FsError>)
        ensures
            r == if head@ == plan.superblock@ {
                Ok::<(), FsError>(())
            } else {
                Err::<(), FsError>(FsError::Bootstrap)
            },
    {
        if plan.superblock.len() != head.len() {
            proof {
                assert(plan.superblock@.len() != head@.len());
            }
            return Err(FsError::Bootstrap);
        }
        let mut i: usize = 0;
        while i < head.len()
            invariant
                i <= head.len(),
                plan.superblock@.len() == head@.len(),
                forall|j: int| 0 <= j < i ==> plan.superblock@[j] == head@[j],
            decreases head.len() - i,
        {
            if plan.superblock[i] != head[i] {
                return Err(FsError::Bootstrap);
            }
            i += 1;
        }
        proof {
            assert(head@ =~= plan.superblock@);
        }
        Ok(())
    }

    /// Whether the cache file has to be built: it does not exist, or the
    /// caller forces a fresh one.
    pub fn needs_bootstrap(cache_present: bool, force: bool) -> (b: bool)
        ensures
            b == (!cache_present || force),
    {
        !cache_present || force
    }

    /// Plans the building of a fresh cache from the remote object's
    /// metadata: the superblock bytes `sb_bin` and the object's length
    /// `filesize`.
    ///
    /// Fails with `Bootstrap` without a remote object, where the bytes are
    /// no valid superblock, and where the object is too short for the
    /// superblock and the inode table it names.
    pub fn plan_bootstrap(sb_bin: &[u8], filesize: i64, opt_chunk_size: Option<usize>, has_remote: bool) -> (r:
        Result<BootstrapPlan, FsError>)
        ensures
            match r {
                Ok(plan) => {
                    &&& bootstrap_spec(sb_bin@, filesize, hint_spec(opt_chunk_size), has_remote)
                        == Some((plan.length, plan.chunk_log, plan.meta_start))
                    &&& plan.superblock@ == sb_bin@
                    &&& plan.range_end == plan.length - 1
                    &&& plan.range@ == range_header_spec(plan.meta_start, plan.range_end)
                    &&& plan.head_end == SB_SIZE - 1
                    &&& plan.head_range@ == range_header_spec(0, plan.head_end)
                    &&& plan.chunk_log <= MAX_CHUNK_LOG
                    &&& plan.meta_start % (chunk_bytes(plan.chunk_log) as u64) == 0
                    &&& plan.meta_start <= plan.range_end
                },
                Err(e) => e == FsError::Bootstrap && bootstrap_spec(
                    sb_bin@,
                    filesize,
                    hint_spec(opt_chunk_size),
                    has_remote,
                ) is None,
            },
    {
        if !has_remote || filesize < 0 {
            return Err(FsError::Bootstrap);
        }
        let length = filesize as u64;
        let sb = match Superblock::decode(sb_bin) {
            None => {
                return Err(FsError::Bootstrap);
            },
            Some(sb) => sb,
        };
        if !sb.is_valid() || length < SB_SIZE as u64 || sb.inode_table_start >= length {
            return Err(FsError::Bootstrap);
        }
        let log = chunk_log(sb.block_log, sb.block_size, hint(opt_chunk_size));
        let meta_start = align_down(sb.inode_table_start, log);
        let range_end = length - 1;
        Ok(
            BootstrapPlan {
                length,
                superblock: crate::xattr::copy_bytes(sb_bin),
                chunk_log: log,
                meta_start,
                range_end,
                range: range_header(meta_start, range_end),
                head_end: SB_SIZE as u64 - 1,
                head_range: range_header(0, SB_SIZE as u64 - 1),
            },
        )
    }

    /// The cache over an opened archive.
    ///
    /// Fails with `Bootstrap` where the archive's superblock is not one
    /// the format allows or its inode table starts beyond the file.
    pub fn new(
        filepath: &str,
        opt_chunk_size: Option<usize>,
        hdmode: HoleDetectMode,
        remote: Option<Remote>,
        arcfs: Archive,
    ) -> (r: Result<Local, FsError>)
        ensures
            match r {
                Ok(local) => {
                    &&& arcfs.well_formed()
                    &&& local.archive_spec() == arcfs
                    &&& local.remote_spec() == remote
                    &&& local.filepath_spec() == filepath@
                    &&& local.context_spec() == (Context {
                        hdmode,
                        meta_start: arcfs.sb.inode_table_start,
                        length: arcfs.file_size,
                        chunk_log: chunk_log_spec(
                            arcfs.sb.block_log,
                            arcfs.sb.block_size,
                            hint_spec(opt_chunk_size),
                        ),
                        has_remote: remote is Some,
                    })
                },
                Err(e) => e == FsError::Bootstrap && !arcfs.well_formed(),
            },
    {
        if !arcfs.sb.is_valid() || arcfs.sb.inode_table_start > arcfs.file_size || arcfs.file_size
            < SB_SIZE as u64 {
            return Err(FsError::Bootstrap);
        }
        let sb = arcfs.get_sb();
        let log = chunk_log(sb.block_log, sb.block_size, hint(opt_chunk_size));
        Ok(Local { remote, filepath: String::from_str(filepath), arcfs, sb, hdmode, chunk_log: log })
    }

    /// How holes are detected.
    pub fn hdmode(&self) -> (m: HoleDetectMode)
        ensures
            m == self.context_spec().hdmode,
    {
        self.hdmode
    }

    /// What the read callback knows of this cache.
    pub fn context(&self) -> (c: Context)
        ensures
            c == self.context_spec(),
            c.well_formed(),
    {
        proof {
            use_type_invariant(self);
        }
        Context {
            hdmode: self.hdmode,
            meta_start: self.sb.inode_table_start,
            length: self.arcfs.file_size,
            chunk_log: self.chunk_log,
            has_remote: self.remote.is_some(),
        }
    }

    /// The archive over the cache file.
    pub fn get_arcfs(&self) -> (a: &Archive)
        ensures
            *a == self.archive_spec(),
            a.well_formed(),
    {
        proof {
            use_type_invariant(self);
        }
        &self.arcfs
    }

    /// The path of the cache file.
    pub fn filepath(&self) -> (s: &str)
        ensures
            s@ == self.filepath_spec(),
    {
        self.filepath.as_str()
    }

    /// The remote object, if the cache has one.
    pub fn remote(&self) -> (r: Option<&Remote>)
        ensures
            r is Some == self.context_spec().has_remote,
            match r {
                Some(remote) => self.remote_spec() == Some(*remote),
                None => self.remote_spec() is None,
            },
    {
        self.remote.as_ref()
    }

    /// Plans the fill for the missing bytes `[start_offset, start_offset +
    /// req_size)`: the chunk-aligned interval to fetch, clipped to the
    /// archive's length, and the range header that asks for it. There is
    /// nothing to do without a remote object, or where the interval is empty.
    pub fn request_remote_data_task(&self, start_offset: u64, req_size: u64) -> (r: Option<FillPlan>)
        ensures
            ({
                let ctx = self.context_spec();
                let w = fill_window_spec(ctx.chunk_log, ctx.length, start_offset, req_size);
                match r {
                    Some(plan) => {
                        &&& ctx.has_remote
                        &&& w.0 < w.1
                        &&& (plan.window.start as int, plan.window.end as int) == w
                        &&& plan.range@ == range_header_spec(
                            plan.window.start,
                            (plan.window.end - 1) as u64,
                        )
                    },
                    None => !ctx.has_remote || w.0 >= w.1,
                }
            }),
    {
        proof {
            use_type_invariant(self);
        }
        if self.remote.is_none() {
            return None;
        }
        let window = fill_window(self.chunk_log, self.arcfs.file_size, start_offset, req_size);
        if window.start >= window.end {
            return None;
        }
        let range = range_header(window.start, window.end - 1);
        Some(FillPlan { window, range })
    }

    /// The number of bytes that extracting the object a lookup found delivers.
    pub fn extract_one(&self, found: Option<&Inode>) -> (r: Result<u64, FsError>)
        ensures
            r == (match found {
                Some(inode) => if inode.kind.is_file_spec() {
                    Ok(inode.size)
                } else {
                    Err(FsError::NotFound)
                },
                None => Err(FsError::NotFound),
            }),
    {
        self.arcfs.extract_one(found)
    }

    /// The rows that a printed listing of the walked entries shows.
    pub fn print_list(&self, walked: &Vec<DirEntry>) -> (rows: Vec<(String, Stat)>)
        ensures
            if all_resolve(self.archive_spec(), walked@) {
                is_listing(self.archive_spec(), walked@, rows@)
            } else {
                rows@.len() == 0
            },
    {
        self.arcfs.print_list(walked)
    }

    /// The status that a report on the object a lookup found shows.
    pub fn print_stat(&self, found: Option<&Inode>) -> (r: Option<Stat>)
        ensures
            r == (match self.archive_spec().getattr_spec(
                match found {
                    Some(i) => Some(*i),
                    None => None,
                },
            ) {
                Ok(st) => Some(st),
                Err(_) => None,
            }),
    {
        self.arcfs.print_file_stat(found)
    }

    /// The rows of a walk of the archive.
    pub fn file_list(&self, walked: &Vec<DirEntry>) -> (rows: Vec<(String, Stat)>)
        ensures
            if all_resolve(self.archive_spec(), walked@) {
                is_listing(self.archive_spec(), walked@, rows@)
            } else {
                rows@.len() == 0
            },
    {
        self.arcfs.file_list(walked)
    }

    /// The status of the object that a path lookup found, or nothing.
    pub fn file_stat(&self, found: Option<&Inode>) -> (r: Option<Stat>)
        ensures
            r == (match self.archive_spec().getattr_spec(
                match found {
                    Some(i) => Some(*i),
                    None => None,
                },
            ) {
                Ok(st) => Some(st),
                Err(_) => None,
            }),
    {
        self.arcfs.file_stat(found)
    }

    /// Tells whether `offset` lies in the metadata region, which begins
    /// with the inode table and runs to the end of the archive.
    pub fn is_metadata_area(&self, offset: u64) -> (b: bool)
        requires
            offset <= self.context_spec().length,
        ensures
            b == self.context_spec().is_metadata(offset),
    {
        offset >= self.sb.inode_table_start
    }

    /// What a report on the cache's superblock shows.
    pub fn print_superblock(&self) -> (r: SuperblockReport)
        ensures
            r == self.archive_spec().sb.report_spec(self.context_spec().length),
    {
        proof {
            use_type_invariant(self);
        }
        self.sb.report(self.arcfs.file_size)
    }
}

/// What an attempt to take the cache file's lock came to.
#[derive(Copy, Clone, PartialEq, Eq, Debug, Structural)]
pub enum LockAttempt {
    /// The lock is held now.
    Acquired,
    /// Another holder has it.
    WouldBlock,
    /// The attempt failed for another reason.
    Failed,
}

/// What a poll of the lock says.
#[derive(Copy, Clone, PartialEq, Eq, Debug, Structural)]
pub enum LockPoll {
    /// The wait is over: the lock is held.
    Locked,
    /// The wait is over: it has failed.
    Failed(FsError),
    /// Try again.
    Pending,
}

/// A wait for the exclusive lock on the cache file, with a deadline.
#[derive(Copy, Clone, PartialEq, Eq, Debug, Structural)]
pub struct FileLock {
    /// The milliseconds the wait may take.
    pub timeout_ms: u64,
}

impl FileLock {
    /// A wait of at most `timeout_ms` milliseconds.
    pub fn new(timeout_ms: u64) -> (l: FileLock)
        ensures
            l.timeout_ms == timeout_ms,
    {
        FileLock { timeout_ms }
    }

    /// What a poll says after an attempt that came to `attempt`, made
    /// `elapsed_ms` milliseconds into the wait.
    pub open spec fn poll_spec(self, attempt: LockAttempt, elapsed_ms: u64) -> LockPoll {
        match attempt {
            LockAttempt::Acquired => LockPoll::Locked,
            LockAttempt::Failed => LockPoll::Failed(FsError::Io),
            LockAttempt::WouldBlock => if elapsed_ms >= self.timeout_ms {
                LockPoll::Failed(FsError::LockTimeout)
            } else {
                LockPoll::Pending
            },
        }
    }

    /// Judges one attempt to take the lock: success ends the wait, a
    /// failure other than contention fails it, and contention fails it
    /// once the deadline has passed and asks for another attempt before.
    pub fn poll(&self, attempt: LockAttempt, elapsed_ms: u64) -> (p: LockPoll)
        ensures
            p == self.poll_spec(attempt, elapsed_ms),
    {
        match attempt {
            LockAttempt::Acquired => LockPoll::Locked,
            LockAttempt::Failed => LockPoll::Failed(FsError::Io),
            LockAttempt::WouldBlock => {
                if elapsed_ms >= self.timeout_ms {
                    LockPoll::Failed(FsError::LockTimeout)
                } else {
                    LockPoll::Pending
                }
            },
        }
    }
}

/// Where the cache of one archive stands in its life.
#[derive(Copy, Clone, PartialEq, Eq, Debug, Structural)]
pub enum Lifecycle {
    /// Nothing has been built yet.
    Uninitialized,
    /// Bootstrap is done and the archive serves requests.
    Ready,
    /// Bootstrap failed; nothing can follow.
    Failed,
    /// The archive has been destroyed.
    Closed,
}

/// What happens to the cache of an archive.
#[derive(Copy, Clone, PartialEq, Eq, Debug, Structural)]
pub enum LifecycleEvent {
    /// Bootstrap ended, well or not.
    Bootstrapped { ok: bool },
    /// The archive was destroyed.
    Destroyed,
}

impl Lifecycle {
    /// The state after an event: bootstrap leads from the start to
    /// readiness or to failure, destruction leads from readiness to the
    /// end, and nothing else changes the state.
    pub open spec fn next_spec(self, event: LifecycleEvent) -> Lifecycle {
        match (self, event) {
            (Lifecycle::Uninitialized, LifecycleEvent::Bootstrapped { ok }) => if ok {
                Lifecycle::Ready
            } else {
                Lifecycle::Failed
            },
            (Lifecycle::Ready, LifecycleEvent::Destroyed) => Lifecycle::Closed,
            _ => self,
        }
    }

    /// Takes an event.
    pub fn next(self, event: LifecycleEvent) -> (l: Lifecycle)
        ensures
            l == self.next_spec(event),
    {
        match self {
            Lifecycle::Uninitialized => match event {
                LifecycleEvent::Bootstrapped { ok } => if ok {
                    Lifecycle::Ready
                } else {
                    Lifecycle::Failed
                },
                LifecycleEvent::Destroyed => self,
            },
            Lifecycle::Ready => match event {
                LifecycleEvent::Destroyed => Lifecycle::Closed,
                LifecycleEvent::Bootstrapped { ok } => self,
            },
            _ => self,
        }
    }

    /// The state after a bootstrap whose plan was carried out and which
    /// found `head` at the head of the remote object: the cache is ready
    /// where the head is the plan's superblock, and the bootstrap has failed
    /// where it is not.
    pub fn after_bootstrap(self, plan: &BootstrapPlan, head: &[u8]) -> (l: Lifecycle)
        ensures
            l == self.next_spec(LifecycleEvent::Bootstrapped { ok: head@ == plan.superblock@ }),
            self == Lifecycle::Uninitialized && head@ != plan.superblock@ ==> l
                == Lifecycle::Failed,
    {
        let ok = Local::finish_bootstrap(plan, head).is_ok();
        self.next(LifecycleEvent::Bootstrapped { ok })
    }

    /// Whether requests are served in this state.
    pub fn serves(self) -> (b: bool)
        ensures
            b == (self == Lifecycle::Ready),
    {
        match self {
            Lifecycle::Ready => true,
            _ => false,
        }
    }
}

/// Failure and the end are final: no event leads out of them.
pub proof fn lemma_lifecycle_ends(state: Lifecycle, event: LifecycleEvent)
    requires
        state == Lifecycle::Failed || state == Lifecycle::Closed,
    ensures
        state.next_spec(event) == state,
{
}

} // verus!
