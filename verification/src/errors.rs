//! The kinds of failure and the POSIX error numbers they surface as.

use vstd::prelude::*;

verus! {

/// No such file or directory.
pub const ENOENT: i32 = 2;

/// Input/output error.
pub const EIO: i32 = 5;

/// Permission denied.
pub const EACCES: i32 = 13;

/// Result too large for the caller's buffer.
pub const ERANGE: i32 = 34;

/// No data available.
pub const ENODATA: i32 = 61;

/// Why an operation failed.
#[derive(Copy, Clone, PartialEq, Eq, Debug, Structural)]
pub enum FsError {
    /// The superblock metadata is missing or invalid, or the cache cannot be created.
    Bootstrap,
    /// A remote fetch failed.
    Transport,
    /// The advisory lock was not obtained before its deadline.
    LockTimeout,
    /// A local read or write failed.
    Io,
    /// A read beyond the archive, or an offset the hole map does not know.
    OutOfBounds,
    /// The path does not exist or names an object of the wrong type.
    NotFound,
    /// The caller's buffer is too small.
    ERange,
    /// The extended attribute is not present.
    NoData,
    /// The file was opened for anything but reading.
    Access,
}

impl FsError {
    /// The error number a filesystem-facing operation reports for this failure.
    pub open spec fn errno_spec(self) -> i32 {
        match self {
            FsError::NotFound => ENOENT,
            FsError::ERange => ERANGE,
            FsError::NoData => ENODATA,
            FsError::Access => EACCES,
            FsError::Bootstrap
            | FsError::Transport
            | FsError::LockTimeout
            | FsError::Io
            | FsError::OutOfBounds => EIO,
        }
    }

    /// The error number a filesystem-facing operation reports for this failure.
    pub fn errno(self) -> (e: i32)
        ensures
            e == self.errno_spec(),
            e > 0,
    {
        match self {
            FsError::NotFound => ENOENT,
            FsError::ERange => ERANGE,
            FsError::NoData => ENODATA,
            FsError::Access => EACCES,
            FsError::Bootstrap => EIO,
            FsError::Transport => EIO,
            FsError::LockTimeout => EIO,
            FsError::Io => EIO,
            FsError::OutOfBounds => EIO,
        }
    }

    /// The value a filesystem callback returns for this failure: the negated error number.
    pub fn to_return_code(self) -> (r: i32)
        ensures
            r == -self.errno_spec(),
            r < 0,
    {
        -self.errno()
    }
}

} // verus!
