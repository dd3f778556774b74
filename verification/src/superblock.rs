//! The archive's superblock: the fixed-size header that opens the archive
//! and is replicated in the remote object's user metadata.

use vstd::arithmetic::power2::pow2;
use vstd::prelude::*;

verus! {

/// The number of bytes a superblock takes.
pub const SB_SIZE: usize = 96;

/// The magic number that opens a superblock.
pub const SB_MAGIC: u32 = 0x7371_7368;

/// The smallest block exponent the format allows.
pub const MIN_BLOCK_LOG: u16 = 12;

/// The largest block exponent the format allows.
pub const MAX_BLOCK_LOG: u16 = 20;

/// The table offset that marks a table as absent.
pub const TABLE_ABSENT: u64 = 0xFFFF_FFFF_FFFF_FFFF;

/// The 16-bit little-endian number that `s` holds at `at`.
pub open spec fn le16(s: Seq<u8>, at: int) -> int {
    s[at] as int + 0x100 * (s[at + 1] as int)
}

/// The 32-bit little-endian number that `s` holds at `at`.
pub open spec fn le32(s: Seq<u8>, at: int) -> int {
    le16(s, at) + 0x1_0000 * le16(s, at + 2)
}

/// The 64-bit little-endian number that `s` holds at `at`.
pub open spec fn le64(s: Seq<u8>, at: int) -> int {
    le32(s, at) + 0x1_0000_0000 * le32(s, at + 4)
}

fn read_le16(b: &[u8], at: usize) -> (v: u16)
    requires
        b@.len() == SB_SIZE,
        at + 2 <= SB_SIZE,
    ensures
        v == le16(b@, at as int),
{
    (b[at] as u16) + 0x100 * (b[at + 1] as u16)
}

fn read_le32(b: &[u8], at: usize) -> (v: u32)
    requires
        b@.len() == SB_SIZE,
        at + 4 <= SB_SIZE,
    ensures
        v == le32(b@, at as int),
{
    (read_le16(b, at) as u32) + 0x1_0000 * (read_le16(b, at + 2) as u32)
}

fn read_le64(b: &[u8], at: usize) -> (v: u64)
    requires
        b@.len() == SB_SIZE,
        at + 8 <= SB_SIZE,
    ensures
        v == le64(b@, at as int),
{
    (read_le32(b, at) as u64) + 0x1_0000_0000 * (read_le32(b, at + 4) as u64)
}

/// The fields of a superblock.
#[derive(Copy, Clone, PartialEq, Eq, Debug, Structural)]
pub struct Superblock {
    pub magic: u32,
    pub inode_count: u32,
    pub modification_time: u32,
    pub block_size: u32,
    pub fragment_entry_count: u32,
    pub compression_id: u16,
    pub block_log: u16,
    pub flags: u16,
    pub id_count: u16,
    pub version_major: u16,
    pub version_minor: u16,
    pub root_inode_ref: u64,
    pub bytes_used: u64,
    pub id_table_start: u64,
    pub xattr_id_table_start: u64,
    pub inode_table_start: u64,
    pub directory_table_start: u64,
    pub fragment_table_start: u64,
    pub export_table_start: u64,
}

/// The compression methods that an archive can name.
#[derive(Copy, Clone, PartialEq, Eq, Debug, Structural)]
pub enum Compressor {
    Zlib,
    Lzma,
    Lzo,
    Xz,
    Lz4,
    Zstd,
}

/// What the superblock report shows of an archive.
#[derive(Copy, Clone, PartialEq, Eq, Debug, Structural)]
pub struct SuperblockReport {
    /// Length of the archive file.
    pub archive_size: u64,
    /// Bytes from the inode table to the end of the file.
    pub metadata_size: u64,
    pub inode_count: u32,
    pub block_size: u32,
    /// The compression method, where the superblock names a known one.
    pub compressor: Option<Compressor>,
    pub bytes_used: u64,
    pub inode_table: u64,
    pub dir_table: u64,
    /// Start of the fragment table; zero where the archive has none.
    pub fragment_table: u64,
    /// Start of the export table; zero where the archive has none.
    pub export_table: u64,
    pub id_table: u64,
    /// Start of the xattr table; zero where the archive has none.
    pub xattr_table: u64,
}

/// The start of a table as a report shows it: zero for an absent table.
pub open spec fn shown_table_start(start: u64) -> u64 {
    if start == TABLE_ABSENT {
        0
    } else {
        start
    }
}

fn shown_table(start: u64) -> (r: u64)
    ensures
        r == shown_table_start(start),
{
    if start == TABLE_ABSENT {
        0
    } else {
        start
    }
}

impl Superblock {
    /// The superblock that 96 bytes encode: each field in little-endian
    /// order at its fixed place.
    pub open spec fn decode_spec(b: Seq<u8>) -> Superblock {
        Superblock {
            magic: le32(b, 0) as u32,
            inode_count: le32(b, 4) as u32,
            modification_time: le32(b, 8) as u32,
            block_size: le32(b, 12) as u32,
            fragment_entry_count: le32(b, 16) as u32,
            compression_id: le16(b, 20) as u16,
            block_log: le16(b, 22) as u16,
            flags: le16(b, 24) as u16,
            id_count: le16(b, 26) as u16,
            version_major: le16(b, 28) as u16,
            version_minor: le16(b, 30) as u16,
            root_inode_ref: le64(b, 32) as u64,
            bytes_used: le64(b, 40) as u64,
            id_table_start: le64(b, 48) as u64,
            xattr_id_table_start: le64(b, 56) as u64,
            inode_table_start: le64(b, 64) as u64,
            directory_table_start: le64(b, 72) as u64,
            fragment_table_start: le64(b, 80) as u64,
            export_table_start: le64(b, 88) as u64,
        }
    }

    /// Reads a superblock from exactly [`SB_SIZE`] bytes; any other length is refused.
    pub fn decode(b: &[u8]) -> (r: Option<Superblock>)
        ensures
            r == if b@.len() == SB_SIZE {
                Some(Self::decode_spec(b@))
            } else {
                None
            },
    {
        if b.len() != SB_SIZE {
            return None;
        }
        Some(
            Superblock {
                magic: read_le32(b, 0),
                inode_count: read_le32(b, 4),
                modification_time: read_le32(b, 8),
                block_size: read_le32(b, 12),
                fragment_entry_count: read_le32(b, 16),
                compression_id: read_le16(b, 20),
                block_log: read_le16(b, 22),
                flags: read_le16(b, 24),
                id_count: read_le16(b, 26),
                version_major: read_le16(b, 28),
                version_minor: read_le16(b, 30),
                root_inode_ref: read_le64(b, 32),
                bytes_used: read_le64(b, 40),
                id_table_start: read_le64(b, 48),
                xattr_id_table_start: read_le64(b, 56),
                inode_table_start: read_le64(b, 64),
                directory_table_start: read_le64(b, 72),
                fragment_table_start: read_le64(b, 80),
                export_table_start: read_le64(b, 88),
            },
        )
    }

    /// The header is one that the format allows: the magic number, format
    /// version 4.0, and a block size that is the power of two named by a
    /// block exponent between 12 and 20.
    pub open spec fn is_valid_spec(self) -> bool {
        &&& self.magic == SB_MAGIC
        &&& self.version_major == 4
        &&& self.version_minor == 0
        &&& MIN_BLOCK_LOG <= self.block_log <= MAX_BLOCK_LOG
        &&& self.block_size == pow2(self.block_log as nat)
    }

    /// Tells whether the header is one that the format allows.
    pub fn is_valid(&self) -> (b: bool)
        ensures
            b == self.is_valid_spec(),
    {
        if self.magic != SB_MAGIC || self.version_major != 4 || self.version_minor != 0 {
            return false;
        }
        if self.block_log < MIN_BLOCK_LOG || self.block_log > MAX_BLOCK_LOG {
            return false;
        }
        let c = crate::chunk::chunk_size_of(self.block_log as u32);
        self.block_size as u64 == c
    }

    /// The compression method that the header names.
    pub open spec fn compressor_spec(self) -> Option<Compressor> {
        match self.compression_id {
            1 => Some(Compressor::Zlib),
            2 => Some(Compressor::Lzma),
            3 => Some(Compressor::Lzo),
            4 => Some(Compressor::Xz),
            5 => Some(Compressor::Lz4),
            6 => Some(Compressor::Zstd),
            _ => None,
        }
    }

    /// The compression method that the header names, if it is a known one.
    pub fn compressor(&self) -> (c: Option<Compressor>)
        ensures
            c == self.compressor_spec(),
    {
        match self.compression_id {
            1 => Some(Compressor::Zlib),
            2 => Some(Compressor::Lzma),
            3 => Some(Compressor::Lzo),
            4 => Some(Compressor::Xz),
            5 => Some(Compressor::Lz4),
            6 => Some(Compressor::Zstd),
            _ => None,
        }
    }

    /// What a report on an archive file of `file_size` bytes shows.
    pub open spec fn report_spec(self, file_size: u64) -> SuperblockReport {
        SuperblockReport {
            archive_size: file_size,
            metadata_size: (file_size - self.inode_table_start) as u64,
            inode_count: self.inode_count,
            block_size: self.block_size,
            compressor: self.compressor_spec(),
            bytes_used: self.bytes_used,
            inode_table: self.inode_table_start,
            dir_table: self.directory_table_start,
            fragment_table: shown_table_start(self.fragment_table_start),
            export_table: shown_table_start(self.export_table_start),
            id_table: self.id_table_start,
            xattr_table: shown_table_start(self.xattr_id_table_start),
        }
    }

    /// Gathers what a report on an archive file of `file_size` bytes shows.
    pub fn report(&self, file_size: u64) -> (r: SuperblockReport)
        requires
            self.inode_table_start <= file_size,
        ensures
            r == self.report_spec(file_size),
    {
        SuperblockReport {
            archive_size: file_size,
            metadata_size: file_size - self.inode_table_start,
            inode_count: self.inode_count,
            block_size: self.block_size,
            compressor: self.compressor(),
            bytes_used: self.bytes_used,
            inode_table: self.inode_table_start,
            dir_table: self.directory_table_start,
            fragment_table: shown_table(self.fragment_table_start),
            export_table: shown_table(self.export_table_start),
            id_table: self.id_table_start,
            xattr_table: shown_table(self.xattr_id_table_start),
        }
    }
}

impl Compressor {
    /// The name under which a report shows the method.
    pub fn name(self) -> (s: &'static str)
        ensures
            s@ == (match self {
                Compressor::Zlib => "ZLIB"@,
                Compressor::Lzma => "LZMA"@,
                Compressor::Lzo => "LZO"@,
                Compressor::Xz => "XZ"@,
                Compressor::Lz4 => "LZ4"@,
                Compressor::Zstd => "ZSTD"@,
            }),
    {
        match self {
            Compressor::Zlib => "ZLIB",
            Compressor::Lzma => "LZMA",
            Compressor::Lzo => "LZO",
            Compressor::Xz => "XZ",
            Compressor::Lz4 => "LZ4",
            Compressor::Zstd => "ZSTD",
        }
    }
}

} // verus!
