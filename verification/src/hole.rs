//! Hole detection: deciding whether bytes served from the cache are
//! materialised data or an unwritten region of the sparse file.

use vstd::prelude::*;

verus! {

/// How a hole in the cache file is recognised.
#[derive(Copy, Clone, PartialEq, Eq, Debug, Structural)]
pub enum HoleDetectMode {
    /// The served buffer is examined: an all-zero buffer counts as a hole.
    ALLZERO,
    /// The kernel's hole map is queried for the next hole at or after the offset.
    LSEEK,
}

impl Default for HoleDetectMode {
    /// Holes are detected through the hole map unless the caller says otherwise.
    fn default() -> (m: HoleDetectMode)
        ensures
            m == HoleDetectMode::LSEEK,
    {
        HoleDetectMode::LSEEK
    }
}

/// What the detector found for one read.
#[derive(Copy, Clone, PartialEq, Eq, Debug, Structural)]
pub enum Classification {
    /// Every requested byte is materialised.
    Present,
    /// The bytes from the given archive offset on are missing.
    Hole(u64),
}

/// Every byte of `s` is zero.
pub open spec fn all_zero(s: Seq<u8>) -> bool {
    forall|i: int| 0 <= i < s.len() ==> s[i] == 0
}

/// Tells whether a buffer holds nothing but zero bytes.
pub fn is_zero(buf: &[u8]) -> (r: bool)
    ensures
        r == all_zero(buf@),
{
    let mut i: usize = 0;
    while i < buf.len()
        invariant
            i <= buf.len(),
            forall|j: int| 0 <= j < i ==> buf@[j] == 0,
        decreases buf.len() - i,
    {
        if buf[i] != 0 {
            return false;
        }
        i += 1;
    }
    true
}

/// The classification of a read of `size` bytes at `offset`.
///
/// In `LSEEK` mode `next_hole` is the answer of the hole-map query made at
/// `offset`: the read meets a hole exactly when that answer lies before the
/// end of the request. In `ALLZERO` mode the whole request counts as a hole
/// when it asks for at least one byte and `zero` says the served buffer
/// was all zero.
pub open spec fn classify_spec(
    mode: HoleDetectMode,
    offset: u64,
    size: u64,
    zero: bool,
    next_hole: u64,
) -> Classification {
    match mode {
        HoleDetectMode::ALLZERO => if zero && size > 0 {
            Classification::Hole(offset)
        } else {
            Classification::Present
        },
        HoleDetectMode::LSEEK => if next_hole < offset + size {
            Classification::Hole(next_hole)
        } else {
            Classification::Present
        },
    }
}

impl HoleDetectMode {
    /// The mode that a command line asks for: by content where the caller
    /// asks for the zero test, by the hole map otherwise.
    pub fn from_zero_flag(zero: bool) -> (m: HoleDetectMode)
        ensures
            m == if zero {
                HoleDetectMode::ALLZERO
            } else {
                HoleDetectMode::LSEEK
            },
    {
        if zero {
            HoleDetectMode::ALLZERO
        } else {
            HoleDetectMode::LSEEK
        }
    }

    /// Classifies a read of which it is known whether every served byte
    /// was zero, and what the hole map answers for its offset. The one is
    /// read in `ALLZERO` mode only, the other in `LSEEK` mode only.
    pub fn classify_served(self, offset: u64, size: u64, zero: bool, next_hole: u64) -> (c:
        Classification)
        ensures
            c == classify_spec(self, offset, size, zero, next_hole),
    {
        match self {
            HoleDetectMode::ALLZERO => {
                if zero && size > 0 {
                    Classification::Hole(offset)
                } else {
                    Classification::Present
                }
            },
            HoleDetectMode::LSEEK => {
                if (next_hole as u128) < (offset as u128) + (size as u128) {
                    Classification::Hole(next_hole)
                } else {
                    Classification::Present
                }
            },
        }
    }

    /// Classifies a read that the cache file has just served.
    ///
    /// `buf` is what was served; `next_hole` is the hole map's answer for
    /// `offset` and is read in `LSEEK` mode only.
    pub fn classify(self, offset: u64, size: u64, buf: &[u8], next_hole: u64) -> (c: Classification)
        ensures
            c == classify_spec(self, offset, size, all_zero(buf@), next_hole),
    {
        match self {
            HoleDetectMode::ALLZERO => self.classify_served(offset, size, is_zero(buf), next_hole),
            HoleDetectMode::LSEEK => self.classify_served(offset, size, false, next_hole),
        }
    }
}

} // verus!
