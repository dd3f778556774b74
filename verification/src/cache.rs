//! A model of the sparse cache file, and what holds of every read through it.
//!
//! The cache file mirrors the remote object byte for byte where it is
//! materialised; elsewhere it is a hole that reads as zero. The model
//! records which offsets are materialised and what they hold, replays the
//! steps of an intercepted read against it, and states the laws of the
//! cache over that replay.

use crate::chunk::{chunk_bytes, fill_window_spec, lemma_fill_window};
use crate::hole::{all_zero, HoleDetectMode};
use crate::hook_helper::{read_step_spec, Context, ReadAction, ReadEvent, ReadState, SeekOutcome};
use crate::repo::bootstrap_of;
use crate::superblock::{Superblock, SB_SIZE};
use vstd::prelude::*;

verus! {

/// The cache file: its length and the bytes of its materialised offsets.
pub struct CacheModel {
    pub length: nat,
    pub data: Map<int, u8>,
}

impl CacheModel {
    /// A fresh sparse file of `length` bytes: one hole.
    pub open spec fn empty(length: nat) -> CacheModel {
        CacheModel { length, data: Map::empty() }
    }

    /// The offset holds a written byte.
    pub open spec fn materialized(self, o: int) -> bool {
        self.data.dom().contains(o)
    }

    /// The byte that a read finds at `o`: the written one, or zero in a hole.
    pub open spec fn byte_at(self, o: int) -> u8 {
        if self.materialized(o) {
            self.data[o]
        } else {
            0
        }
    }

    /// The bytes that a read of `n` bytes at `o` is served, as far as the file reaches.
    pub open spec fn served(self, o: int, n: int) -> Seq<u8> {
        let end = if o + n > self.length {
            self.length as int
        } else {
            o + n
        };
        if end <= o {
            Seq::empty()
        } else {
            Seq::new((end - o) as nat, |i: int| self.byte_at(o + i))
        }
    }

    /// The file after `bytes` are written at `at`.
    pub open spec fn write(self, at: int, bytes: Seq<u8>) -> CacheModel {
        CacheModel {
            length: self.length,
            data: Map::new(
                |o: int| self.materialized(o) || at <= o < at + bytes.len(),
                |o: int|
                    if at <= o < at + bytes.len() {
                        bytes[o - at]
                    } else {
                        self.data[o]
                    },
            ),
        }
    }

    /// The file after the interval `[a, b)` of the remote object is written into it.
    pub open spec fn fill(self, remote: Seq<u8>, a: int, b: int) -> CacheModel {
        self.write(a, remote.subrange(a, b))
    }

    /// Every materialised offset lies in the file and holds the remote object's byte.
    pub open spec fn consistent(self, remote: Seq<u8>) -> bool {
        &&& remote.len() == self.length
        &&& forall|o: int| #[trigger]
            self.materialized(o) ==> 0 <= o < self.length && self.data[o] == remote[o]
    }

    /// Every offset of `[a, b)` is materialised.
    pub open spec fn covers(self, a: int, b: int) -> bool {
        forall|o: int| a <= o < b ==> #[trigger] self.materialized(o)
    }

    /// The answer of the hole map at `o`: the first offset from `o` on that
    /// is not materialised, and the file's end where there is none.
    pub open spec fn next_hole(self, o: int) -> int
        decreases self.length - o,
    {
        if o >= self.length {
            self.length as int
        } else if !self.materialized(o) {
            o
        } else {
            self.next_hole(o + 1)
        }
    }

    /// Everything that `self` has materialised, `later` has materialised too.
    pub open spec fn grows_into(self, later: CacheModel) -> bool {
        &&& later.length == self.length
        &&& forall|o: int| #[trigger] self.materialized(o) ==> later.materialized(o)
    }
}

/// What one intercepted read came to.
pub struct ReadRun {
    /// The cache after the read.
    pub cache: CacheModel,
    /// The intervals fetched from the remote object, in order.
    pub fetches: Seq<(int, int)>,
    /// The code handed to the decoder.
    pub code: i32,
    /// The bytes handed to the decoder; none where the read failed.
    pub bytes: Seq<u8>,
}

/// The end of a read whose last action is `action`, taken on `cache`.
pub open spec fn finish(cache: CacheModel, fetches: Seq<(int, int)>, action: ReadAction, offset: u64, size: u64) -> ReadRun {
    match action {
        ReadAction::Return { code } => ReadRun {
            cache,
            fetches,
            code,
            bytes: if code == 0 {
                cache.served(offset as int, size as int)
            } else {
                Seq::empty()
            },
        },
        _ => ReadRun { cache, fetches, code: 0, bytes: cache.served(offset as int, size as int) },
    }
}

/// An intercepted read of `size` bytes at `offset`, replayed on the model:
/// each action that a step names is carried out on `cache`, with `remote`
/// as the object that fills fetch from, and its outcome is reported to the
/// next step. The cache file and the remote object do not fail.
pub open spec fn run_read(ctx: Context, cache: CacheModel, remote: Seq<u8>, offset: u64, size: u64) -> ReadRun {
    let first = read_step_spec(ctx, ReadState::Ready, ReadEvent::Request { offset, size });
    match first.1 {
        ReadAction::ReadAndReport => {
            let zero = all_zero(cache.served(offset as int, size as int));
            let second = read_step_spec(ctx, first.0, ReadEvent::Served { status: 0, zero });
            let third = match second.1 {
                ReadAction::SeekHole { offset: at } => read_step_spec(
                    ctx,
                    second.0,
                    ReadEvent::HoleMap(SeekOutcome::NextHole(cache.next_hole(at as int) as u64)),
                ),
                _ => second,
            };
            match third.1 {
                ReadAction::Fill { start, len, window } => {
                    let filled = cache.fill(remote, window.start as int, window.end as int);
                    let last = read_step_spec(ctx, third.0, ReadEvent::Filled { ok: true });
                    finish(
                        filled,
                        seq![(window.start as int, window.end as int)],
                        last.1,
                        offset,
                        size,
                    )
                },
                _ => finish(cache, Seq::empty(), third.1, offset, size),
            }
        },
        _ => finish(cache, Seq::empty(), first.1, offset, size),
    }
}

/// The cache after bootstrap: the sparse file is created with a zero byte
/// at its end, the superblock bytes are written at its head, and the
/// remote object from `meta_start` on is written at `meta_start`.
pub open spec fn bootstrapped(length: nat, sb_bytes: Seq<u8>, meta_start: int, remote: Seq<u8>) -> CacheModel {
    CacheModel::empty(length).write(length - 1, seq![0u8]).write(0, sb_bytes).fill(
        remote,
        meta_start,
        length as int,
    )
}

/// The hole map's answer lies between the query and the file's end; every
/// offset before it is materialised, and the answer itself is a hole unless
/// it is the file's end.
pub proof fn lemma_next_hole(cache: CacheModel, o: int)
    requires
        0 <= o <= cache.length,
    ensures
        o <= cache.next_hole(o) <= cache.length,
        cache.covers(o, cache.next_hole(o)),
        cache.next_hole(o) < cache.length ==> !cache.materialized(cache.next_hole(o)),
    decreases cache.length - o,
{
    if o < cache.length && cache.materialized(o) {
        lemma_next_hole(cache, o + 1);
    }
}

/// Where a run of offsets is materialised, the hole map answers at or beyond its end.
pub proof fn lemma_next_hole_skips_covered(cache: CacheModel, o: int, e: int)
    requires
        0 <= o <= e <= cache.length,
        cache.covers(o, e),
    ensures
        cache.next_hole(o) >= e,
    decreases e - o,
{
    if o < e {
        assert(cache.materialized(o));
        lemma_next_hole_skips_covered(cache, o + 1, e);
    } else {
        lemma_next_hole(cache, o);
    }
}

/// Byte-equivalence under a fill: a cache that agrees with the remote
/// object wherever it is materialised still does after an interval of the
/// object is written into it, and has that interval materialised.
pub proof fn lemma_fill_keeps_consistency(cache: CacheModel, remote: Seq<u8>, a: int, b: int)
    requires
        cache.consistent(remote),
        0 <= a <= b <= cache.length,
    ensures
        cache.fill(remote, a, b).consistent(remote),
        cache.fill(remote, a, b).covers(a, b),
{
    let filled = cache.fill(remote, a, b);
    assert forall|o: int| #[trigger] filled.materialized(o) implies 0 <= o < filled.length
        && filled.data[o] == remote[o] by {
        if a <= o < b {
        } else {
            assert(cache.materialized(o));
        }
    }
    assert forall|o: int| a <= o < b implies #[trigger] filled.materialized(o) by {}
}

/// Monotonic materialisation: a write never turns a materialised offset
/// back into a hole.
pub proof fn lemma_write_only_grows(cache: CacheModel, at: int, bytes: Seq<u8>)
    ensures
        cache.grows_into(cache.write(at, bytes)),
{
    let w = cache.write(at, bytes);
    assert forall|o: int| #[trigger] cache.materialized(o) implies w.materialized(o) by {}
}

/// A cache that agrees with the remote object serves the object's own
/// bytes wherever the request is materialised throughout.
pub proof fn lemma_served_is_remote(cache: CacheModel, remote: Seq<u8>, o: int, n: int)
    requires
        cache.consistent(remote),
        0 <= o,
        0 <= n,
        o + n <= cache.length,
        cache.covers(o, o + n),
    ensures
        cache.served(o, n) == remote.subrange(o, o + n),
{
    if n > 0 {
        assert forall|i: int| 0 <= i < n implies cache.served(o, n)[i] == remote.subrange(
            o,
            o + n,
        )[i] by {
            assert(cache.materialized(o + i));
        }
    }
    assert(cache.served(o, n) =~= remote.subrange(o, o + n));
}

/// Superblock identity and byte-equivalence after bootstrap: where the superblock
/// bytes from the object's metadata are the object's own first bytes, the
/// bootstrapped cache agrees with the object wherever it is materialised,
/// serves exactly those superblock bytes at its head, and has the whole
/// metadata region materialised.
pub proof fn lemma_bootstrap(length: nat, sb_bytes: Seq<u8>, meta_start: int, remote: Seq<u8>)
    requires
        remote.len() == length,
        sb_bytes.len() == SB_SIZE,
        length >= SB_SIZE,
        sb_bytes == remote.subrange(0, SB_SIZE as int),
        0 <= meta_start < length,
    ensures
        bootstrapped(length, sb_bytes, meta_start, remote).length == length,
        bootstrapped(length, sb_bytes, meta_start, remote).consistent(remote),
        bootstrapped(length, sb_bytes, meta_start, remote).served(0, SB_SIZE as int) == sb_bytes,
        bootstrapped(length, sb_bytes, meta_start, remote).covers(0, SB_SIZE as int),
        bootstrapped(length, sb_bytes, meta_start, remote).covers(meta_start, length as int),
{
    let c0 = CacheModel::empty(length);
    let c1 = c0.write(length - 1, seq![0u8]);
    let c2 = c1.write(0, sb_bytes);
    let c3 = c2.fill(remote, meta_start, length as int);
    assert forall|o: int| #[trigger] c3.materialized(o) implies 0 <= o < c3.length && c3.data[o]
        == remote[o] by {
        if meta_start <= o < length {
        } else {
            assert(c2.materialized(o));
            if 0 <= o < SB_SIZE {
                assert(sb_bytes[o] == remote.subrange(0, SB_SIZE as int)[o]);
            } else {
                assert(c1.materialized(o));
                assert(o == length - 1);
            }
        }
    }
    assert forall|o: int| 0 <= o < SB_SIZE implies #[trigger] c3.materialized(o) by {
        assert(c2.materialized(o));
    }
    assert forall|o: int| meta_start <= o < length implies #[trigger] c3.materialized(o) by {}
    lemma_served_is_remote(c3, remote, 0, SB_SIZE as int);
}

/// The cache of a bootstrap that ended well, its plan carried out and the
/// remote object's head found to be the plan's superblock, has the whole
/// metadata region materialised, from the start of the inode table to the
/// archive's end, agrees with the remote object, and serves the superblock
/// at its head.
pub proof fn lemma_planned_bootstrap(
    sb: Superblock,
    sb_bin: Seq<u8>,
    filesize: i64,
    chunk_size: Option<u64>,
    remote: Seq<u8>,
)
    requires
        bootstrap_of(sb, filesize, chunk_size, true) is Some,
        sb_bin.len() == SB_SIZE,
        remote.len() == filesize,
        remote.subrange(0, SB_SIZE as int) == sb_bin,
    ensures
        ({
            let plan = bootstrap_of(sb, filesize, chunk_size, true)->0;
            let cache = bootstrapped(plan.0 as nat, sb_bin, plan.2 as int, remote);
            &&& plan.0 == filesize
            &&& plan.2 <= sb.inode_table_start < plan.0
            &&& plan.2 as int % chunk_bytes(plan.1) == 0
            &&& cache.consistent(remote)
            &&& cache.served(0, SB_SIZE as int) == sb_bin
            &&& cache.covers(sb.inode_table_start as int, plan.0 as int)
        }),
{
    let plan = bootstrap_of(sb, filesize, chunk_size, true)->0;
    let chunk = chunk_bytes(plan.1);
    let start = sb.inode_table_start as int;
    assert(chunk > 0) by {
        vstd::arithmetic::power2::lemma_pow2_pos(plan.1 as nat);
    }
    crate::chunk::lemma_align_down(start, chunk);
    let meta = crate::chunk::align_down_spec(start, chunk);
    assert(plan.2 == meta);
    lemma_bootstrap(filesize as nat, sb_bin, meta, remote);
    let cache = bootstrapped(filesize as nat, sb_bin, meta, remote);
    assert forall|o: int| start <= o < filesize implies #[trigger] cache.materialized(o) by {
        assert(cache.covers(meta, filesize as int));
    }
}

/// The first missing byte of a request on a cache: the request's first
/// byte in `ALLZERO` mode, the hole map's answer in `LSEEK` mode.
pub open spec fn first_missing(ctx: Context, cache: CacheModel, offset: u64) -> int {
    match ctx.hdmode {
        HoleDetectMode::ALLZERO => offset as int,
        HoleDetectMode::LSEEK => cache.next_hole(offset as int),
    }
}

/// The shape of every read: it fetches at most once; without a fetch the
/// cache is unchanged; a fetch happens only for a request inside the data
/// region of a cache with a remote object, begins at or before the first
/// missing byte of the request, reaches to the request's end, and leaves
/// the cache with exactly the fetched interval written into it.
pub proof fn lemma_run_shape(ctx: Context, cache: CacheModel, remote: Seq<u8>, offset: u64, size: u64)
    requires
        ctx.well_formed(),
        cache.length == ctx.length,
    ensures
        ({
            let run = run_read(ctx, cache, remote, offset, size);
            &&& run.fetches.len() <= 1
            &&& run.fetches.len() == 0 ==> run.cache == cache
            &&& run.fetches.len() == 1 ==> {
                let a = run.fetches[0].0;
                let b = run.fetches[0].1;
                let h = first_missing(ctx, cache, offset);
                &&& ctx.has_remote
                &&& !ctx.is_metadata(offset)
                &&& offset + size <= ctx.length
                &&& offset <= h < offset + size
                &&& (a, b) == fill_window_spec(ctx.chunk_log, ctx.length, h as u64, (offset + size - h) as u64)
                &&& 0 <= a <= h
                &&& offset + size <= b <= ctx.length
                &&& run.cache == cache.fill(remote, a, b)
                &&& run.code == 0
            }
        }),
{
    let first = read_step_spec(ctx, ReadState::Ready, ReadEvent::Request { offset, size });
    if first.1 == ReadAction::ReadAndReport {
        lemma_next_hole(cache, offset as int);
        let h = first_missing(ctx, cache, offset);
        if offset <= h < offset + size {
            lemma_fill_window(ctx.chunk_log, ctx.length, h as u64, (offset + size - h) as u64);
        }
    }
}

/// The interval is not empty, begins on a chunk boundary, and ends on one
/// or at the archive's end.
pub open spec fn is_aligned(ctx: Context, w: (int, int)) -> bool {
    &&& w.0 % chunk_bytes(ctx.chunk_log) == 0
    &&& w.1 % chunk_bytes(ctx.chunk_log) == 0 || w.1 == ctx.length
    &&& 0 <= w.0 < w.1 <= ctx.length
}

/// Alignment: every interval that a read fetches begins on a chunk
/// boundary and ends on one or at the archive's end.
pub proof fn lemma_fills_are_aligned(ctx: Context, cache: CacheModel, remote: Seq<u8>, offset: u64, size: u64)
    requires
        ctx.well_formed(),
        cache.length == ctx.length,
    ensures
        forall|i: int|
            0 <= i < run_read(ctx, cache, remote, offset, size).fetches.len() ==> is_aligned(
                ctx,
                #[trigger] run_read(ctx, cache, remote, offset, size).fetches[i],
            ),
{
    lemma_run_shape(ctx, cache, remote, offset, size);
    let run = run_read(ctx, cache, remote, offset, size);
    if run.fetches.len() == 1 {
        let h = first_missing(ctx, cache, offset);
        lemma_fill_window(ctx.chunk_log, ctx.length, h as u64, (offset + size - h) as u64);
    }
}

/// Byte-equivalence: a read leaves a cache that agrees with the remote
/// object in agreement with it.
pub proof fn lemma_read_keeps_consistency(ctx: Context, cache: CacheModel, remote: Seq<u8>, offset: u64, size: u64)
    requires
        ctx.well_formed(),
        cache.length == ctx.length,
        cache.consistent(remote),
    ensures
        run_read(ctx, cache, remote, offset, size).cache.consistent(remote),
{
    lemma_run_shape(ctx, cache, remote, offset, size);
    let run = run_read(ctx, cache, remote, offset, size);
    if run.fetches.len() == 1 {
        lemma_fill_keeps_consistency(cache, remote, run.fetches[0].0, run.fetches[0].1);
    }
}

/// Monotonic materialisation: whatever was materialised before a read is
/// materialised after it.
pub proof fn lemma_read_only_grows(ctx: Context, cache: CacheModel, remote: Seq<u8>, offset: u64, size: u64)
    requires
        ctx.well_formed(),
        cache.length == ctx.length,
    ensures
        cache.grows_into(run_read(ctx, cache, remote, offset, size).cache),
{
    lemma_run_shape(ctx, cache, remote, offset, size);
    let run = run_read(ctx, cache, remote, offset, size);
    if run.fetches.len() == 1 {
        lemma_write_only_grows(
            cache,
            run.fetches[0].0,
            remote.subrange(run.fetches[0].0, run.fetches[0].1),
        );
    }
}

/// Transparency: through a cache that agrees with the remote object and
/// has its metadata region materialised, a read that the hole map guards
/// hands the decoder the remote object's own bytes, whether it had to
/// fetch them or not.
pub proof fn lemma_read_serves_remote_bytes(ctx: Context, cache: CacheModel, remote: Seq<u8>, offset: u64, size: u64)
    requires
        ctx.well_formed(),
        ctx.hdmode == HoleDetectMode::LSEEK,
        ctx.has_remote,
        cache.length == ctx.length,
        cache.consistent(remote),
        cache.covers(ctx.meta_start as int, ctx.length as int),
        offset + size <= ctx.length,
    ensures
        run_read(ctx, cache, remote, offset, size).code == 0,
        run_read(ctx, cache, remote, offset, size).bytes == remote.subrange(
            offset as int,
            offset + size,
        ),
{
    let run = run_read(ctx, cache, remote, offset, size);
    let o = offset as int;
    let e = offset + size;
    lemma_run_shape(ctx, cache, remote, offset, size);
    lemma_read_keeps_consistency(ctx, cache, remote, offset, size);
    if ctx.is_metadata(offset) {
        assert forall|p: int| o <= p < e implies #[trigger] cache.materialized(p) by {}
    } else {
        lemma_next_hole(cache, o);
        let h = cache.next_hole(o);
        if run.fetches.len() == 1 {
            lemma_fill_keeps_consistency(cache, remote, run.fetches[0].0, run.fetches[0].1);
            assert forall|p: int| o <= p < e implies #[trigger] run.cache.materialized(p) by {
                if p < h {
                    assert(cache.materialized(p));
                }
            }
        } else {
            assert forall|p: int| o <= p < e implies #[trigger] run.cache.materialized(p) by {
                assert(cache.materialized(p));
            }
        }
    }
    lemma_served_is_remote(run.cache, remote, o, size as int);
}

/// The request on which a repeated read fetches again: in `ALLZERO` mode,
/// with a remote object, a request inside the data region whose bytes in
/// the remote object are all zero.
pub open spec fn refetched_every_time(ctx: Context, remote: Seq<u8>, offset: u64, size: u64) -> bool {
    &&& ctx.hdmode == HoleDetectMode::ALLZERO
    &&& ctx.has_remote
    &&& !ctx.is_metadata(offset)
    &&& size > 0
    &&& offset + size <= ctx.length
    &&& all_zero(remote.subrange(offset as int, offset + size))
}

/// Read idempotence: the read that follows a read of the same bytes hands
/// the decoder the same code and the same bytes, fetches nothing and
/// leaves the cache as it found it. The one request left out is that of
/// all-zero bytes in `ALLZERO` mode, which is fetched every time.
pub proof fn lemma_second_read_fetches_nothing(ctx: Context, cache: CacheModel, remote: Seq<u8>, offset: u64, size: u64)
    requires
        ctx.well_formed(),
        cache.length == ctx.length,
        cache.consistent(remote),
        !refetched_every_time(ctx, remote, offset, size),
    ensures
        ({
            let first = run_read(ctx, cache, remote, offset, size);
            let second = run_read(ctx, first.cache, remote, offset, size);
            &&& second.fetches.len() == 0
            &&& second.code == first.code
            &&& second.bytes == first.bytes
            &&& second.cache == first.cache
        }),
{
    let first = run_read(ctx, cache, remote, offset, size);
    lemma_run_shape(ctx, cache, remote, offset, size);
    lemma_run_shape(ctx, first.cache, remote, offset, size);
    let step = read_step_spec(ctx, ReadState::Ready, ReadEvent::Request { offset, size });
    if step.1 == ReadAction::ReadAndReport {
        let o = offset as int;
        let e = offset + size;
        lemma_next_hole(cache, o);
        lemma_next_hole(first.cache, o);
        if first.fetches.len() == 1 {
            let a = first.fetches[0].0;
            let b = first.fetches[0].1;
            let h = first_missing(ctx, cache, offset);
            lemma_fill_keeps_consistency(cache, remote, a, b);
            assert forall|p: int| o <= p < e implies #[trigger] first.cache.materialized(p) by {
                if p < h {
                    assert(cache.materialized(p));
                }
            }
            lemma_next_hole_skips_covered(first.cache, o, e);
            lemma_served_is_remote(first.cache, remote, o, size as int);
        } else {
            match ctx.hdmode {
                HoleDetectMode::ALLZERO => {},
                HoleDetectMode::LSEEK => {},
            }
        }
    }
}

/// In `ALLZERO` mode all-zero bytes are fetched again by every read, and
/// every read still hands the decoder those same bytes.
pub proof fn lemma_zero_bytes_are_refetched(ctx: Context, cache: CacheModel, remote: Seq<u8>, offset: u64, size: u64)
    requires
        ctx.well_formed(),
        cache.length == ctx.length,
        cache.consistent(remote),
        refetched_every_time(ctx, remote, offset, size),
    ensures
        ({
            let run = run_read(ctx, cache, remote, offset, size);
            &&& run.fetches.len() == 1
            &&& run.code == 0
            &&& run.bytes == remote.subrange(offset as int, offset + size)
            &&& run.cache.consistent(remote)
        }),
{
    let o = offset as int;
    let served = cache.served(o, size as int);
    assert forall|i: int| 0 <= i < served.len() implies served[i] == 0 by {
        if cache.materialized(o + i) {
            assert(remote.subrange(o, o + size)[i] == 0);
        }
    }
    lemma_run_shape(ctx, cache, remote, offset, size);
    let run = run_read(ctx, cache, remote, offset, size);
    lemma_fill_window(ctx.chunk_log, ctx.length, offset, size);
    lemma_fill_keeps_consistency(cache, remote, run.fetches[0].0, run.fetches[0].1);
    assert forall|p: int| o <= p < o + size implies #[trigger] run.cache.materialized(p) by {}
    lemma_served_is_remote(run.cache, remote, o, size as int);
}

/// A read at the archive's end hands the decoder no bytes and fetches nothing.
pub proof fn lemma_read_at_end(ctx: Context, cache: CacheModel, remote: Seq<u8>, size: u64)
    requires
        ctx.well_formed(),
        cache.length == ctx.length,
    ensures
        ({
            let run = run_read(ctx, cache, remote, ctx.length, size);
            &&& run.fetches.len() == 0
            &&& run.bytes.len() == 0
            &&& run.code == 0
            &&& run.cache == cache
        }),
{
}

/// One fill for one read: a read fetches at most one interval, and that
/// interval holds every byte of the request from the first missing one
/// on, whatever chunk boundaries lie between them. In `LSEEK` mode the
/// whole request is materialised afterwards.
pub proof fn lemma_one_fill_covers_request(ctx: Context, cache: CacheModel, remote: Seq<u8>, offset: u64, size: u64)
    requires
        ctx.well_formed(),
        cache.length == ctx.length,
        remote.len() == ctx.length,
    ensures
        ({
            let run = run_read(ctx, cache, remote, offset, size);
            &&& run.fetches.len() <= 1
            &&& run.fetches.len() == 1 ==> {
                &&& run.fetches[0].0 <= first_missing(ctx, cache, offset)
                &&& offset + size <= run.fetches[0].1
                &&& run.cache.covers(first_missing(ctx, cache, offset), offset + size)
                &&& ctx.hdmode == HoleDetectMode::LSEEK ==> run.cache.covers(
                    offset as int,
                    offset + size,
                )
            }
        }),
{
    lemma_run_shape(ctx, cache, remote, offset, size);
    let run = run_read(ctx, cache, remote, offset, size);
    if run.fetches.len() == 1 {
        let h = first_missing(ctx, cache, offset);
        lemma_next_hole(cache, offset as int);
        assert(remote.subrange(run.fetches[0].0, run.fetches[0].1).len() == run.fetches[0].1
            - run.fetches[0].0);
        assert forall|p: int| h <= p < offset + size implies #[trigger] run.cache.materialized(
            p,
        ) by {}
        if ctx.hdmode == HoleDetectMode::LSEEK {
            assert forall|p: int| offset <= p < offset + size implies #[trigger]
                run.cache.materialized(p) by {
                if p < h {
                    assert(cache.materialized(p));
                }
            }
        }
    }
}

} // verus!
