//! The intercepted positioned read of the archive decoder.
//!
//! The decoder reads the cache file through one callback. The decisions of
//! that callback are taken here, one step at a time: the caller performs
//! the action a step names and comes back with what happened.

use crate::chunk::{fill_window, fill_window_spec, FillWindow, MAX_CHUNK_LOG};
use crate::hole::{all_zero, classify_spec, is_zero, Classification, HoleDetectMode};
use crate::repo::Local;
use vstd::prelude::*;

verus! {

/// The decoder's code for a failed read or write.
pub const SQFS_ERROR_IO: i32 = -2;

/// The decoder's code for an access outside the file.
pub const SQFS_ERROR_OUT_OF_BOUNDS: i32 = -8;

/// What the callback knows of the mounted cache.
#[derive(Copy, Clone, PartialEq, Eq, Debug, Structural)]
pub struct Context {
    /// How holes are detected.
    pub hdmode: HoleDetectMode,
    /// Where the metadata region begins: the start of the inode table.
    pub meta_start: u64,
    /// The length of the archive.
    pub length: u64,
    /// The chunk exponent.
    pub chunk_log: u32,
    /// Whether there is a remote object to fetch from.
    pub has_remote: bool,
}

impl Context {
    /// The chunk exponent is in range and the metadata region begins inside the archive.
    pub open spec fn well_formed(self) -> bool {
        self.chunk_log <= MAX_CHUNK_LOG && self.meta_start <= self.length
    }

    /// The offset lies in the metadata region, which bootstrap has fetched whole.
    pub open spec fn is_metadata(self, offset: u64) -> bool {
        offset >= self.meta_start
    }
}

/// The answer of the hole map to a query.
#[derive(Copy, Clone, PartialEq, Eq, Debug, Structural)]
pub enum SeekOutcome {
    /// The first hole at or after the queried offset; the end of the file where there is none.
    NextHole(u64),
    /// The query lay outside the file.
    NoSuchOffset,
    /// The query failed for another reason.
    Failed,
}

/// The error number with which the hole map refuses an offset outside the file.
pub const ENXIO: i32 = 6;

/// Reads the answer of a hole-map query off the offset it returned and the
/// error number it left: an offset that is not negative is the next hole;
/// a refusal of the offset is told apart from any other failure.
pub fn seek_outcome(ret: i64, errno: i32) -> (o: SeekOutcome)
    ensures
        o == if ret >= 0 {
            SeekOutcome::NextHole(ret as u64)
        } else if errno == ENXIO {
            SeekOutcome::NoSuchOffset
        } else {
            SeekOutcome::Failed
        },
{
    if ret >= 0 {
        SeekOutcome::NextHole(ret as u64)
    } else if errno == ENXIO {
        SeekOutcome::NoSuchOffset
    } else {
        SeekOutcome::Failed
    }
}

/// Where one intercepted read stands.
#[derive(Copy, Clone, PartialEq, Eq, Debug, Structural)]
pub enum ReadState {
    /// No read is in progress.
    Ready,
    /// The cache file is serving the request; its answer decides what follows.
    Serving { offset: u64, size: u64 },
    /// The hole map is being asked about the request.
    Seeking { offset: u64, size: u64 },
    /// A fill for the request is under way.
    Filling { offset: u64, size: u64 },
    /// The read has ended.
    Done,
}

/// What the caller reports to the callback.
#[derive(Copy, Clone, PartialEq, Eq, Debug, Structural)]
pub enum ReadEvent {
    /// The decoder asks for `size` bytes at `offset`.
    Request { offset: u64, size: u64 },
    /// The cache file has served the request with `status`; `zero` tells
    /// whether every served byte was zero.
    Served { status: i32, zero: bool },
    /// The hole map has answered.
    HoleMap(SeekOutcome),
    /// The fill has ended, well or not.
    Filled { ok: bool },
}

impl ReadEvent {
    /// The report of a read that the cache file ended with `status`, having
    /// put `buf` into the decoder's buffer.
    pub fn served(status: i32, buf: &[u8]) -> (e: ReadEvent)
        ensures
            e == (ReadEvent::Served { status, zero: all_zero(buf@) }),
    {
        ReadEvent::Served { status, zero: is_zero(buf) }
    }
}

/// What the caller is to do next.
#[derive(Copy, Clone, PartialEq, Eq, Debug, Structural)]
pub enum ReadAction {
    /// Read from the cache file and hand its status to the decoder.
    ReadThrough,
    /// Read from the cache file and report the outcome as `Served`.
    ReadAndReport,
    /// Ask the hole map for the first hole at or after `offset` and report it as `HoleMap`.
    SeekHole { offset: u64 },
    /// Fetch `window` from the remote object, write it into the cache file
    /// and report the outcome as `Filled`. The missing bytes are the `len`
    /// bytes from `start` on.
    Fill { start: u64, len: u64, window: FillWindow },
    /// Hand `code` to the decoder.
    Return { code: i32 },
}

/// The step taken once a read is classified: a hole with a byte inside the
/// request is filled, where there is a remote object, and read again;
/// present bytes end the read with success.
pub open spec fn after_classification(ctx: Context, offset: u64, size: u64, c: Classification) -> (
    ReadState,
    ReadAction,
) {
    match c {
        Classification::Hole(h) => if h < offset || h >= offset + size {
            (ReadState::Done, ReadAction::Return { code: SQFS_ERROR_IO })
        } else if !ctx.has_remote {
            (ReadState::Done, ReadAction::ReadThrough)
        } else {
            let len = (offset + size - h) as u64;
            let w = fill_window_spec(ctx.chunk_log, ctx.length, h, len);
            (
                ReadState::Filling { offset, size },
                ReadAction::Fill {
                    start: h,
                    len,
                    window: FillWindow { start: w.0 as u64, end: w.1 as u64 },
                },
            )
        },
        Classification::Present => (ReadState::Done, ReadAction::Return { code: 0 }),
    }
}

/// One step of the intercepted read.
///
/// A request beyond the archive's end is out of bounds. One that begins in
/// the metadata region is read straight through. Any other is served from
/// the cache file first; a failure of that read is handed on. The served
/// bytes are then classified, by their content in `ALLZERO` mode and by the
/// hole map in `LSEEK` mode, and a hole is filled and read again. An
/// event that the state does not wait for ends the read with an I/O error,
/// and so does a state that names a request beyond the archive's end.
pub open spec fn read_step_spec(ctx: Context, state: ReadState, event: ReadEvent) -> (
    ReadState,
    ReadAction,
) {
    match (state, event) {
        (ReadState::Ready, ReadEvent::Request { offset, size }) => {
            if offset > ctx.length {
                (ReadState::Done, ReadAction::Return { code: SQFS_ERROR_OUT_OF_BOUNDS })
            } else if ctx.is_metadata(offset) {
                (ReadState::Done, ReadAction::ReadThrough)
            } else if offset + size > ctx.length {
                (ReadState::Done, ReadAction::Return { code: SQFS_ERROR_OUT_OF_BOUNDS })
            } else {
                (ReadState::Serving { offset, size }, ReadAction::ReadAndReport)
            }
        },
        (ReadState::Serving { offset, size }, ReadEvent::Served { status, zero }) => {
            if status != 0 {
                (ReadState::Done, ReadAction::Return { code: status })
            } else {
                match ctx.hdmode {
                    HoleDetectMode::ALLZERO => if offset + size > ctx.length {
                        (ReadState::Done, ReadAction::Return { code: SQFS_ERROR_IO })
                    } else {
                        after_classification(
                            ctx,
                            offset,
                            size,
                            classify_spec(HoleDetectMode::ALLZERO, offset, size, zero, 0),
                        )
                    },
                    HoleDetectMode::LSEEK => (
                        ReadState::Seeking { offset, size },
                        ReadAction::SeekHole { offset },
                    ),
                }
            }
        },
        (ReadState::Seeking { offset, size }, ReadEvent::HoleMap(outcome)) => match outcome {
            SeekOutcome::NextHole(h) => if offset + size > ctx.length {
                (ReadState::Done, ReadAction::Return { code: SQFS_ERROR_IO })
            } else {
                after_classification(
                    ctx,
                    offset,
                    size,
                    classify_spec(HoleDetectMode::LSEEK, offset, size, false, h),
                )
            },
            SeekOutcome::NoSuchOffset => (
                ReadState::Done,
                ReadAction::Return { code: SQFS_ERROR_OUT_OF_BOUNDS },
            ),
            SeekOutcome::Failed => (ReadState::Done, ReadAction::Return { code: SQFS_ERROR_IO }),
        },
        (ReadState::Filling { offset, size }, ReadEvent::Filled { ok }) => if ok {
            (ReadState::Done, ReadAction::ReadThrough)
        } else {
            (ReadState::Done, ReadAction::Return { code: SQFS_ERROR_IO })
        },
        _ => (ReadState::Done, ReadAction::Return { code: SQFS_ERROR_IO }),
    }
}

fn classified(ctx: &Context, offset: u64, size: u64, c: Classification) -> (r: (ReadState, ReadAction))
    requires
        ctx.well_formed(),
        offset + size <= ctx.length,
    ensures
        r == after_classification(*ctx, offset, size, c),
{
    match c {
        Classification::Hole(h) => {
            if h < offset || h - offset >= size {
                (ReadState::Done, ReadAction::Return { code: SQFS_ERROR_IO })
            } else if !ctx.has_remote {
                (ReadState::Done, ReadAction::ReadThrough)
            } else {
                let len = size - (h - offset);
                let window = fill_window(ctx.chunk_log, ctx.length, h, len);
                (ReadState::Filling { offset, size }, ReadAction::Fill { start: h, len, window })
            }
        },
        Classification::Present => (ReadState::Done, ReadAction::Return { code: 0 }),
    }
}

/// Takes one step of the intercepted read: from the state and what the
/// caller reports to the next state and what the caller is to do.
pub fn read_step(ctx: &Context, state: ReadState, event: ReadEvent) -> (r: (ReadState, ReadAction))
    requires
        ctx.well_formed(),
    ensures
        r == read_step_spec(*ctx, state, event),
{
    match state {
        ReadState::Ready => match event {
            ReadEvent::Request { offset, size } => {
                if offset > ctx.length {
                    (ReadState::Done, ReadAction::Return { code: SQFS_ERROR_OUT_OF_BOUNDS })
                } else if offset >= ctx.meta_start {
                    (ReadState::Done, ReadAction::ReadThrough)
                } else if size > ctx.length - offset {
                    (ReadState::Done, ReadAction::Return { code: SQFS_ERROR_OUT_OF_BOUNDS })
                } else {
                    (ReadState::Serving { offset, size }, ReadAction::ReadAndReport)
                }
            },
            _ => (ReadState::Done, ReadAction::Return { code: SQFS_ERROR_IO }),
        },
        ReadState::Serving { offset, size } => match event {
            ReadEvent::Served { status, zero } => {
                if status != 0 {
                    (ReadState::Done, ReadAction::Return { code: status })
                } else {
                    match ctx.hdmode {
                        HoleDetectMode::ALLZERO => {
                            if (offset as u128) + (size as u128) > ctx.length as u128 {
                                (ReadState::Done, ReadAction::Return { code: SQFS_ERROR_IO })
                            } else {
                                let c = ctx.hdmode.classify_served(offset, size, zero, 0);
                                classified(ctx, offset, size, c)
                            }
                        },
                        HoleDetectMode::LSEEK => (
                            ReadState::Seeking { offset, size },
                            ReadAction::SeekHole { offset },
                        ),
                    }
                }
            },
            _ => (ReadState::Done, ReadAction::Return { code: SQFS_ERROR_IO }),
        },
        ReadState::Seeking { offset, size } => match event {
            ReadEvent::HoleMap(outcome) => match outcome {
                SeekOutcome::NextHole(h) => {
                    if (offset as u128) + (size as u128) > ctx.length as u128 {
                        (ReadState::Done, ReadAction::Return { code: SQFS_ERROR_IO })
                    } else {
                        let c = HoleDetectMode::LSEEK.classify_served(offset, size, false, h);
                        classified(ctx, offset, size, c)
                    }
                },
                SeekOutcome::NoSuchOffset => (
                    ReadState::Done,
                    ReadAction::Return { code: SQFS_ERROR_OUT_OF_BOUNDS },
                ),
                SeekOutcome::Failed => (
                    ReadState::Done,
                    ReadAction::Return { code: SQFS_ERROR_IO },
                ),
            },
            _ => (ReadState::Done, ReadAction::Return { code: SQFS_ERROR_IO }),
        },
        ReadState::Filling { offset, size } => match event {
            ReadEvent::Filled { ok } => {
                if ok {
                    (ReadState::Done, ReadAction::ReadThrough)
                } else {
                    (ReadState::Done, ReadAction::Return { code: SQFS_ERROR_IO })
                }
            },
            _ => (ReadState::Done, ReadAction::Return { code: SQFS_ERROR_IO }),
        },
        ReadState::Done => (ReadState::Done, ReadAction::Return { code: SQFS_ERROR_IO }),
    }
}

/// The decoder's positioned read on the cache `local`, one step at a
/// time: from the state of the read and what the caller reports to the
/// next state and what the caller is to do.
pub fn archive_read_at(local: &Local, state: ReadState, event: ReadEvent) -> (r: (
    ReadState,
    ReadAction,
))
    ensures
        r == read_step_spec(local.context_spec(), state, event),
{
    let ctx = local.context();
    read_step(&ctx, state, event)
}

} // verus!
