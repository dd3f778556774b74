//! The archive's inode records, held as plain values.

use vstd::prelude::*;

verus! {

/// The xattr index of an inode that carries no extended attributes.
pub const XATTR_NONE: u32 = 0xFFFF_FFFF;

/// Mask of the file-type bits in a mode.
pub const S_IFMT: u32 = 0o170000;

/// File-type bits of a socket.
pub const S_IFSOCK: u32 = 0o140000;

/// File-type bits of a symbolic link.
pub const S_IFLNK: u32 = 0o120000;

/// File-type bits of a regular file.
pub const S_IFREG: u32 = 0o100000;

/// File-type bits of a block device.
pub const S_IFBLK: u32 = 0o060000;

/// File-type bits of a directory.
pub const S_IFDIR: u32 = 0o040000;

/// File-type bits of a character device.
pub const S_IFCHR: u32 = 0o020000;

/// File-type bits of a FIFO.
pub const S_IFIFO: u32 = 0o010000;

/// The type tag of an inode record.
#[derive(Copy, Clone, PartialEq, Eq, Debug, Structural)]
pub enum InodeType {
    Dir,
    File,
    Slink,
    Bdev,
    Cdev,
    Fifo,
    Socket,
    ExtDir,
    ExtFile,
    ExtSlink,
    ExtBdev,
    ExtCdev,
    ExtFifo,
    ExtSocket,
}

impl InodeType {
    /// The number under which the archive format stores this type.
    pub open spec fn tag_spec(self) -> u16 {
        match self {
            InodeType::Dir => 1,
            InodeType::File => 2,
            InodeType::Slink => 3,
            InodeType::Bdev => 4,
            InodeType::Cdev => 5,
            InodeType::Fifo => 6,
            InodeType::Socket => 7,
            InodeType::ExtDir => 8,
            InodeType::ExtFile => 9,
            InodeType::ExtSlink => 10,
            InodeType::ExtBdev => 11,
            InodeType::ExtCdev => 12,
            InodeType::ExtFifo => 13,
            InodeType::ExtSocket => 14,
        }
    }

    /// The number under which the archive format stores this type.
    pub fn tag(self) -> (t: u16)
        ensures
            t == self.tag_spec(),
            1 <= t <= 14,
    {
        match self {
            InodeType::Dir => 1,
            InodeType::File => 2,
            InodeType::Slink => 3,
            InodeType::Bdev => 4,
            InodeType::Cdev => 5,
            InodeType::Fifo => 6,
            InodeType::Socket => 7,
            InodeType::ExtDir => 8,
            InodeType::ExtFile => 9,
            InodeType::ExtSlink => 10,
            InodeType::ExtBdev => 11,
            InodeType::ExtCdev => 12,
            InodeType::ExtFifo => 13,
            InodeType::ExtSocket => 14,
        }
    }

    /// The type stored under `tag`, if there is one.
    pub fn from_tag(tag: u16) -> (r: Option<InodeType>)
        ensures
            match r {
                Some(t) => t.tag_spec() == tag,
                None => tag < 1 || tag > 14,
            },
    {
        match tag {
            1 => Some(InodeType::Dir),
            2 => Some(InodeType::File),
            3 => Some(InodeType::Slink),
            4 => Some(InodeType::Bdev),
            5 => Some(InodeType::Cdev),
            6 => Some(InodeType::Fifo),
            7 => Some(InodeType::Socket),
            8 => Some(InodeType::ExtDir),
            9 => Some(InodeType::ExtFile),
            10 => Some(InodeType::ExtSlink),
            11 => Some(InodeType::ExtBdev),
            12 => Some(InodeType::ExtCdev),
            13 => Some(InodeType::ExtFifo),
            14 => Some(InodeType::ExtSocket),
            _ => None,
        }
    }

    /// The record is one of the extended variants, which carry an xattr index.
    pub open spec fn is_extended_spec(self) -> bool {
        self.tag_spec() >= 8
    }

    /// The record is one of the extended variants, which carry an xattr index.
    pub fn is_extended(self) -> (b: bool)
        ensures
            b == self.is_extended_spec(),
    {
        self.tag() >= 8
    }

    /// The file-type bits that a mode of this inode type carries.
    pub open spec fn format_bits_spec(self) -> u32 {
        match self {
            InodeType::Dir | InodeType::ExtDir => S_IFDIR,
            InodeType::File | InodeType::ExtFile => S_IFREG,
            InodeType::Slink | InodeType::ExtSlink => S_IFLNK,
            InodeType::Bdev | InodeType::ExtBdev => S_IFBLK,
            InodeType::Cdev | InodeType::ExtCdev => S_IFCHR,
            InodeType::Fifo | InodeType::ExtFifo => S_IFIFO,
            InodeType::Socket | InodeType::ExtSocket => S_IFSOCK,
        }
    }

    /// The file-type bits that a mode of this inode type carries.
    pub fn format_bits(self) -> (b: u32)
        ensures
            b == self.format_bits_spec(),
    {
        match self {
            InodeType::Dir => S_IFDIR,
            InodeType::ExtDir => S_IFDIR,
            InodeType::File => S_IFREG,
            InodeType::ExtFile => S_IFREG,
            InodeType::Slink => S_IFLNK,
            InodeType::ExtSlink => S_IFLNK,
            InodeType::Bdev => S_IFBLK,
            InodeType::ExtBdev => S_IFBLK,
            InodeType::Cdev => S_IFCHR,
            InodeType::ExtCdev => S_IFCHR,
            InodeType::Fifo => S_IFIFO,
            InodeType::ExtFifo => S_IFIFO,
            InodeType::Socket => S_IFSOCK,
            InodeType::ExtSocket => S_IFSOCK,
        }
    }

    /// A regular file, basic or extended.
    pub open spec fn is_file_spec(self) -> bool {
        self == InodeType::File || self == InodeType::ExtFile
    }

    /// A regular file, basic or extended.
    pub fn is_file(self) -> (b: bool)
        ensures
            b == self.is_file_spec(),
    {
        match self {
            InodeType::File => true,
            InodeType::ExtFile => true,
            _ => false,
        }
    }

    /// A symbolic link, basic or extended.
    pub open spec fn is_symlink_spec(self) -> bool {
        self == InodeType::Slink || self == InodeType::ExtSlink
    }

    /// A symbolic link, basic or extended.
    pub fn is_symlink(self) -> (b: bool)
        ensures
            b == self.is_symlink_spec(),
    {
        match self {
            InodeType::Slink => true,
            InodeType::ExtSlink => true,
            _ => false,
        }
    }

    /// A directory, basic or extended.
    pub open spec fn is_dir_spec(self) -> bool {
        self == InodeType::Dir || self == InodeType::ExtDir
    }

    /// A directory, basic or extended.
    pub fn is_dir(self) -> (b: bool)
        ensures
            b == self.is_dir_spec(),
    {
        match self {
            InodeType::Dir => true,
            InodeType::ExtDir => true,
            _ => false,
        }
    }

    /// A block or character device, basic or extended.
    pub open spec fn is_device_spec(self) -> bool {
        self == InodeType::Bdev || self == InodeType::Cdev || self == InodeType::ExtBdev
            || self == InodeType::ExtCdev
    }

    /// A block or character device, basic or extended.
    pub fn is_device(self) -> (b: bool)
        ensures
            b == self.is_device_spec(),
    {
        match self {
            InodeType::Bdev => true,
            InodeType::Cdev => true,
            InodeType::ExtBdev => true,
            InodeType::ExtCdev => true,
            _ => false,
        }
    }
}

/// One inode as the archive stores it.
///
/// The record is flat: a field that the inode's type does not have holds
/// zero, and `xattr_idx` holds [`XATTR_NONE`] on the basic variants.
#[derive(Clone, Debug)]
pub struct Inode {
    /// The type tag.
    pub kind: InodeType,
    /// Permission bits.
    pub mode: u16,
    /// Index of the owner in the id table.
    pub uid_idx: u16,
    /// Index of the group in the id table.
    pub gid_idx: u16,
    /// Modification time, seconds since the epoch.
    pub mod_time: u32,
    /// The inode number.
    pub inode_number: u32,
    /// Hard-link count; the basic regular file stores none.
    pub nlink: u32,
    /// File size, symlink target size or directory listing size.
    pub size: u64,
    /// Bytes saved by sparse blocks; extended regular files only.
    pub sparse: u64,
    /// Device number; device nodes only.
    pub devno: u32,
    /// Index into the xattr table; extended variants only.
    pub xattr_idx: u32,
    /// The symlink target; symbolic links only.
    pub target: Vec<u8>,
}

impl Inode {
    /// The xattr index that the record carries: that of an extended variant
    /// which has attributes, and nothing otherwise.
    pub open spec fn xattr_index_spec(self) -> Option<u32> {
        if self.kind.is_extended_spec() && self.xattr_idx != XATTR_NONE {
            Some(self.xattr_idx)
        } else {
            None
        }
    }

    /// The xattr index that the record carries, if any.
    pub fn xattr_index(&self) -> (r: Option<u32>)
        ensures
            r == self.xattr_index_spec(),
    {
        if self.kind.is_extended() && self.xattr_idx != XATTR_NONE {
            Some(self.xattr_idx)
        } else {
            None
        }
    }

    /// The record is one that a sound archive holds: a mode whose file-type
    /// bits are clear or name the record's own type, a link count of at least
    /// one where the type stores one, a size that a file offset can express,
    /// and, for a symbolic link, a target of the recorded size without a zero
    /// byte in it.
    pub open spec fn well_formed(self) -> bool {
        &&& (self.mode as u32) & S_IFMT == 0 || (self.mode as u32) & S_IFMT
            == self.kind.format_bits_spec()
        &&& self.kind != InodeType::File ==> self.nlink >= 1
        &&& self.size <= i64::MAX
        &&& self.kind.is_symlink_spec() ==> {
            &&& self.target@.len() == self.size
            &&& forall|i: int| 0 <= i < self.target@.len() ==> self.target@[i] != 0
        }
    }
}

} // verus!
