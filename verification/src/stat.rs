//! From an inode record to POSIX file status.

use crate::inode::{Inode, InodeType, S_IFBLK, S_IFCHR, S_IFDIR, S_IFIFO, S_IFLNK, S_IFMT, S_IFREG, S_IFSOCK};
use vstd::prelude::*;

verus! {

/// The preferred I/O block size reported for every object.
pub const STAT_BLKSIZE: i64 = 4096;

/// The status of one filesystem object.
#[derive(Copy, Clone, PartialEq, Eq, Debug, Structural)]
pub struct Stat {
    pub st_ino: u64,
    pub st_mode: u32,
    pub st_nlink: u64,
    pub st_uid: u32,
    pub st_gid: u32,
    pub st_rdev: u64,
    pub st_size: i64,
    pub st_blksize: i64,
    pub st_blocks: i64,
    pub st_atime: i64,
    pub st_mtime: i64,
    pub st_ctime: i64,
}

/// The link count reported for an inode: one for the basic regular file,
/// which stores none, and the stored count otherwise.
pub open spec fn nlink_of(inode: Inode) -> u64 {
    if inode.kind == InodeType::File {
        1
    } else {
        inode.nlink as u64
    }
}

/// The size reported for an inode: that of a file, of a symlink's target or
/// of a directory's listing; zero for the other types. A size beyond what a
/// file offset can express is reported as the largest offset.
pub open spec fn size_of(inode: Inode) -> i64 {
    if inode.kind.is_file_spec() || inode.kind.is_symlink_spec() || inode.kind.is_dir_spec() {
        if inode.size > i64::MAX {
            i64::MAX
        } else {
            inode.size as i64
        }
    } else {
        0
    }
}

/// The 512-byte blocks that hold `n` bytes.
pub open spec fn blocks_for(n: int) -> int {
    (n - 1) / 512 + 1
}

/// The 512-byte blocks reported for an inode's data: for a basic regular
/// file those that hold its size, for an extended one those that hold its
/// size less the bytes saved by sparse blocks, and none for other types.
pub open spec fn data_blocks_of(inode: Inode) -> int {
    match inode.kind {
        InodeType::File => blocks_for(inode.size as int),
        InodeType::ExtFile => (inode.size - inode.sparse + 511) / 512,
        _ => 0,
    }
}

/// The 512-byte blocks reported for an attribute set of `xattr_size` bytes.
pub open spec fn xattr_blocks_of(xattr_size: Option<u32>) -> int {
    match xattr_size {
        Some(n) => if n > 0 {
            blocks_for(n as int)
        } else {
            0
        },
        None => 0,
    }
}

/// The status of `inode`, given the owner and group that the id table
/// resolves its indices to and the size of its attribute set.
pub open spec fn stat_of(inode: Inode, uid: Option<u32>, gid: Option<u32>, xattr_size: Option<u32>) -> Stat {
    Stat {
        st_ino: inode.inode_number as u64,
        st_mode: (inode.mode as u32) | inode.kind.format_bits_spec(),
        st_nlink: nlink_of(inode),
        st_uid: match uid {
            Some(u) => u,
            None => 0,
        },
        st_gid: match gid {
            Some(g) => g,
            None => 0,
        },
        st_rdev: if inode.kind.is_device_spec() {
            inode.devno as u64
        } else {
            0
        },
        st_size: size_of(inode),
        st_blksize: STAT_BLKSIZE,
        st_blocks: (data_blocks_of(inode) + xattr_blocks_of(xattr_size)) as i64,
        st_atime: inode.mod_time as i64,
        st_mtime: inode.mod_time as i64,
        st_ctime: inode.mod_time as i64,
    }
}

fn blocks_holding(n: u64) -> (b: i64)
    ensures
        b == blocks_for(n as int),
        0 <= b <= 0x80_0000_0000_0000,
{
    if n == 0 {
        0
    } else {
        ((n - 1) / 512 + 1) as i64
    }
}

fn data_blocks(inode: &Inode) -> (b: i64)
    ensures
        b == data_blocks_of(*inode),
        -0x80_0000_0000_0000 <= b <= 0x80_0000_0000_0000,
{
    match inode.kind {
        InodeType::File => blocks_holding(inode.size),
        InodeType::ExtFile => {
            if inode.size >= inode.sparse {
                let n: u64 = inode.size - inode.sparse;
                (n / 512) as i64 + (if n % 512 == 0 {
                    0i64
                } else {
                    1i64
                })
            } else {
                let n: u64 = inode.sparse - inode.size;
                if n <= 511 {
                    0
                } else {
                    -(((n - 511) / 512 + (if (n - 511) % 512 == 0 {
                        0u64
                    } else {
                        1u64
                    })) as i64)
                }
            }
        },
        _ => 0,
    }
}

/// Gives the status of an inode.
pub fn inode_stat(inode: &Inode, uid: Option<u32>, gid: Option<u32>, xattr_size: Option<u32>) -> (st: Stat)
    ensures
        st == stat_of(*inode, uid, gid, xattr_size),
{
    let sized = inode.kind.is_file() || inode.kind.is_symlink() || inode.kind.is_dir();
    let st_size: i64 = if sized {
        if inode.size > i64::MAX as u64 {
            i64::MAX
        } else {
            inode.size as i64
        }
    } else {
        0
    };
    let xattr_blocks: i64 = match xattr_size {
        Some(n) => if n > 0 {
            blocks_holding(n as u64)
        } else {
            0
        },
        None => 0,
    };
    Stat {
        st_ino: inode.inode_number as u64,
        st_mode: (inode.mode as u32) | inode.kind.format_bits(),
        st_nlink: match inode.kind {
            InodeType::File => 1,
            _ => inode.nlink as u64,
        },
        st_uid: match uid {
            Some(u) => u,
            None => 0,
        },
        st_gid: match gid {
            Some(g) => g,
            None => 0,
        },
        st_rdev: if inode.kind.is_device() {
            inode.devno as u64
        } else {
            0
        },
        st_size,
        st_blksize: STAT_BLKSIZE,
        st_blocks: data_blocks(inode) + xattr_blocks,
        st_atime: inode.mod_time as i64,
        st_mtime: inode.mod_time as i64,
        st_ctime: inode.mod_time as i64,
    }
}

/// The file-type bits of a mode.
pub open spec fn file_type_of(mode: u32) -> u32 {
    mode & S_IFMT
}

/// The status of a sound inode names the inode's type in its mode, counts
/// at least one link, has a size that is not negative, and carries the
/// inode's modification time as each of its three times.
pub proof fn lemma_stat_reflects_inode(inode: Inode, uid: Option<u32>, gid: Option<u32>, xattr_size: Option<u32>)
    requires
        inode.well_formed(),
    ensures
        file_type_of(stat_of(inode, uid, gid, xattr_size).st_mode) == inode.kind.format_bits_spec(),
        stat_of(inode, uid, gid, xattr_size).st_nlink >= 1,
        stat_of(inode, uid, gid, xattr_size).st_size >= 0,
        inode.kind.is_symlink_spec() ==> stat_of(inode, uid, gid, xattr_size).st_size
            == inode.target@.len(),
        stat_of(inode, uid, gid, xattr_size).st_atime == inode.mod_time,
        stat_of(inode, uid, gid, xattr_size).st_mtime == inode.mod_time,
        stat_of(inode, uid, gid, xattr_size).st_ctime == inode.mod_time,
{
    let m = inode.mode as u32;
    let t = inode.kind.format_bits_spec();
    assert(t == S_IFDIR || t == S_IFREG || t == S_IFLNK || t == S_IFBLK || t == S_IFCHR || t
        == S_IFIFO || t == S_IFSOCK);
    assert((m | t) & 0o170000u32 == t) by (bit_vector)
        requires
            m & 0o170000u32 == 0 || m & 0o170000u32 == t,
            t == 0o040000u32 || t == 0o100000u32 || t == 0o120000u32 || t == 0o060000u32 || t
                == 0o020000u32 || t == 0o010000u32 || t == 0o140000u32,
    ;
}

} // verus!
