//! The archive and the read-only filesystem operations on it.
//!
//! The archive library resolves paths and decodes blocks; what it hands
//! back arrives here as plain values, and every decision of an operation is
//! taken from those: which error a failed lookup becomes, how an inode
//! turns into file status, which attribute answers a query, how far a
//! read has come.

use crate::errors::FsError;
use crate::inode::Inode;
use crate::stat::{inode_stat, stat_of, Stat};
use crate::superblock::Superblock;
use crate::xattr::{copy_bytes, is_get_reply, is_list_reply, XattrList, XattrReply, XattrSet};
use vstd::prelude::*;
use vstd::string::{StrSliceExecFns, StringExecFns};

verus! {

/// An opened archive: its superblock, the length of its file, and the two
/// tables that inodes refer to by index.
#[derive(Debug)]
pub struct Archive {
    /// The superblock read from the head of the file.
    pub sb: Superblock,
    /// The length of the archive file.
    pub file_size: u64,
    /// The id table: owner and group ids by index.
    pub idtbl: Vec<u32>,
    /// The xattr table: attribute sets by index.
    pub xattrs: Vec<XattrSet>,
}

/// One entry of a directory: a name and the inode it leads to.
#[derive(Debug)]
pub struct DirEntry {
    pub name: String,
    pub inode: Inode,
}

/// How a read of file data goes on.
#[derive(Copy, Clone, PartialEq, Eq, Debug, Structural)]
pub enum ReadStep {
    /// Ask the data reader for `want` bytes at file offset `at`.
    Fetch { at: u64, want: u32 },
    /// The read is complete: `total` bytes were delivered.
    Done { total: usize },
    /// The data reader failed.
    Failed,
}

/// The progress of one read of file data.
#[derive(Copy, Clone, PartialEq, Eq, Debug, Structural)]
pub struct ReadCursor {
    /// File offset at which the read began.
    pub offset: u64,
    /// Bytes delivered so far.
    pub off: usize,
    /// Bytes still wanted.
    pub remain: u32,
}

impl ReadCursor {
    /// What a cursor does next when the data reader has answered `diff`: a
    /// negative answer fails the read, as does one that delivers more than
    /// was asked for or leads past the last file offset; zero ends it, and
    /// so does the answer that delivers the last wanted byte; any other
    /// answer asks for the rest.
    pub open spec fn advance_spec(self, diff: i32) -> (ReadCursor, ReadStep) {
        if diff < 0 || diff > self.remain || self.off + diff > usize::MAX || self.offset
            + self.off + diff > u64::MAX {
            (self, ReadStep::Failed)
        } else {
            let next = ReadCursor {
                offset: self.offset,
                off: (self.off + diff) as usize,
                remain: (self.remain - diff) as u32,
            };
            if diff == 0 || next.remain == 0 {
                (next, ReadStep::Done { total: next.off })
            } else {
                (next, ReadStep::Fetch { at: (self.offset + next.off) as u64, want: next.remain })
            }
        }
    }

    /// The request that opens the read.
    pub fn first(&self) -> (s: ReadStep)
        ensures
            s == if self.remain == 0 || self.offset + self.off > u64::MAX {
                (ReadStep::Done { total: self.off })
            } else {
                (ReadStep::Fetch { at: (self.offset + self.off) as u64, want: self.remain })
            },
    {
        if self.remain == 0 || self.off as u128 + self.offset as u128 > u64::MAX as u128 {
            ReadStep::Done { total: self.off }
        } else {
            ReadStep::Fetch { at: self.offset + self.off as u64, want: self.remain }
        }
    }

    /// Takes the data reader's answer to the last request and says what comes next.
    pub fn advance(&mut self, diff: i32) -> (s: ReadStep)
        ensures
            (*final(self), s) == old(self).advance_spec(diff),
    {
        if diff < 0 || diff as u32 > self.remain {
            return ReadStep::Failed;
        }
        let d = diff as u32;
        if (d as u128) + (self.off as u128) > usize::MAX as u128 {
            return ReadStep::Failed;
        }
        if (d as u128) + (self.off as u128) + (self.offset as u128) > u64::MAX as u128 {
            return ReadStep::Failed;
        }
        self.off = self.off + d as usize;
        self.remain = self.remain - d;
        if d == 0 || self.remain == 0 {
            ReadStep::Done { total: self.off }
        } else {
            ReadStep::Fetch { at: self.offset + self.off as u64, want: self.remain }
        }
    }
}

/// A read delivers no more than was asked for: whatever the data reader
/// answers, the bytes delivered and the bytes still wanted add up to the
/// same number before and after a step, and a step that ends the read
/// reports the bytes delivered.
pub proof fn lemma_read_delivers_at_most_size(cursor: ReadCursor, diff: i32)
    ensures
        ({
            let (next, step) = cursor.advance_spec(diff);
            &&& next.off + next.remain == cursor.off + cursor.remain
            &&& next.off >= cursor.off
            &&& step matches ReadStep::Done { total } ==> total == next.off && total <= cursor.off
                + cursor.remain
            &&& step matches ReadStep::Fetch { at, want } ==> at == cursor.offset + next.off
                && want == next.remain && want > 0
            &&& step == ReadStep::Failed ==> next == cursor
        }),
{
}

impl Archive {
    /// The archive that the given superblock bytes, file length and tables
    /// describe. Nothing is built where the bytes are no superblock, the
    /// superblock is not one the format allows, or the file is too short to
    /// hold the inode table it names.
    pub open spec fn open_spec(sb_bytes: Seq<u8>, file_size: u64) -> Option<Superblock> {
        if sb_bytes.len() != crate::superblock::SB_SIZE {
            None
        } else {
            let sb = Superblock::decode_spec(sb_bytes);
            if sb.is_valid_spec() && sb.inode_table_start <= file_size && file_size
                >= crate::superblock::SB_SIZE {
                Some(sb)
            } else {
                None
            }
        }
    }

    /// Builds the archive from what was read of its file.
    pub fn new_from_file(sb_bytes: &[u8], file_size: u64, idtbl: Vec<u32>, xattrs: Vec<XattrSet>) -> (r:
        Option<Archive>)
        ensures
            match r {
                Some(a) => Self::open_spec(sb_bytes@, file_size) == Some(a.sb) && a.file_size
                    == file_size && a.idtbl == idtbl && a.xattrs == xattrs && a.well_formed(),
                None => Self::open_spec(sb_bytes@, file_size) is None,
            },
    {
        match Superblock::decode(sb_bytes) {
            None => None,
            Some(sb) => {
                if sb.is_valid() && sb.inode_table_start <= file_size && file_size
                    >= crate::superblock::SB_SIZE as u64 {
                    Some(Archive { sb, file_size, idtbl, xattrs })
                } else {
                    None
                }
            },
        }
    }

    /// Builds the archive over a sparse cache file. Whether the directory
    /// tree is walked ahead of time does not change what is built.
    pub fn new_from_sparse(
        sb_bytes: &[u8],
        file_size: u64,
        idtbl: Vec<u32>,
        xattrs: Vec<XattrSet>,
        init_root: bool,
    ) -> (r: Option<Archive>)
        ensures
            match r {
                Some(a) => Self::open_spec(sb_bytes@, file_size) == Some(a.sb) && a.file_size
                    == file_size && a.idtbl == idtbl && a.xattrs == xattrs && a.well_formed(),
                None => Self::open_spec(sb_bytes@, file_size) is None,
            },
    {
        let _ = init_root;
        Self::new_from_file(sb_bytes, file_size, idtbl, xattrs)
    }

    /// Builds the archive, boxed, without walking the directory tree.
    pub fn new(sb_bytes: &[u8], file_size: u64, idtbl: Vec<u32>, xattrs: Vec<XattrSet>) -> (r: Option<
        Box<Archive>,
    >)
        ensures
            match r {
                Some(a) => Self::open_spec(sb_bytes@, file_size) == Some(a.sb) && a.file_size
                    == file_size && a.idtbl == idtbl && a.xattrs == xattrs && a.well_formed(),
                None => Self::open_spec(sb_bytes@, file_size) is None,
            },
    {
        match Self::new_from_sparse(sb_bytes, file_size, idtbl, xattrs, false) {
            Some(a) => Some(Box::new(a)),
            None => None,
        }
    }

    /// The superblock is one the format allows and the inode table starts
    /// inside the file.
    pub open spec fn well_formed(self) -> bool {
        &&& self.sb.is_valid_spec()
        &&& self.sb.inode_table_start <= self.file_size
        &&& self.file_size >= crate::superblock::SB_SIZE
    }

    /// The archive's superblock.
    pub fn get_sb(&self) -> (sb: Superblock)
        ensures
            sb == self.sb,
    {
        self.sb
    }

    /// The length of the archive file.
    pub fn get_archive_file_size(&self) -> (n: u64)
        ensures
            n == self.file_size,
    {
        self.file_size
    }

    /// The id that the table holds at `idx`.
    pub open spec fn id_spec(self, idx: u16) -> Option<u32> {
        if idx < self.idtbl@.len() {
            Some(self.idtbl@[idx as int])
        } else {
            None
        }
    }

    /// Resolves an index of the id table.
    pub fn id_of(&self, idx: u16) -> (r: Option<u32>)
        ensures
            r == self.id_spec(idx),
    {
        if (idx as usize) < self.idtbl.len() {
            Some(self.idtbl[idx as usize])
        } else {
            None
        }
    }

    /// The xattr table holds the set that `inode` refers to, if it refers to one.
    pub open spec fn resolves_spec(self, inode: Inode) -> bool {
        match inode.xattr_index_spec() {
            Some(idx) => idx < self.xattrs@.len(),
            None => true,
        }
    }

    /// Tells whether the xattr table holds the set that `inode` refers to.
    pub fn resolves(&self, inode: &Inode) -> (b: bool)
        ensures
            b == self.resolves_spec(*inode),
    {
        match inode.xattr_index() {
            Some(idx) => (idx as usize) < self.xattrs.len(),
            None => true,
        }
    }

    /// The size of the attribute set that `inode` refers to.
    pub open spec fn xattr_size_spec(self, inode: Inode) -> Option<u32> {
        match inode.xattr_index_spec() {
            Some(idx) => if idx < self.xattrs@.len() {
                Some(self.xattrs@[idx as int].size)
            } else {
                None
            },
            None => None,
        }
    }

    /// The status that this archive gives `inode`, with the owner and group
    /// resolved through the id table and the blocks of its attribute set
    /// counted in.
    pub open spec fn stat_spec(self, inode: Inode) -> Stat {
        stat_of(
            inode,
            self.id_spec(inode.uid_idx),
            self.id_spec(inode.gid_idx),
            self.xattr_size_spec(inode),
        )
    }

    /// Gives the status of an inode of this archive.
    pub fn generic_inode_to_stat(&self, inode: &Inode) -> (st: Stat)
        requires
            self.resolves_spec(*inode),
        ensures
            st == self.stat_spec(*inode),
    {
        let xattr_size = match inode.xattr_index() {
            Some(idx) => Some(self.xattrs[idx as usize].size),
            None => None,
        };
        inode_stat(inode, self.id_of(inode.uid_idx), self.id_of(inode.gid_idx), xattr_size)
    }

    /// What `getattr` answers for the outcome `found` of a path lookup.
    pub open spec fn getattr_spec(self, found: Option<Inode>) -> Result<Stat, FsError> {
        match found {
            None => Err(FsError::NotFound),
            Some(inode) => if self.resolves_spec(inode) {
                Ok(self.stat_spec(inode))
            } else {
                Err(FsError::Io)
            },
        }
    }

    /// The status of the object that a path lookup found: `NotFound` where
    /// it found none, an I/O failure where the inode refers to an attribute
    /// set that the archive does not hold.
    pub fn getattr(&self, found: Option<&Inode>) -> (r: Result<Stat, FsError>)
        ensures
            r == self.getattr_spec(
                match found {
                    Some(i) => Some(*i),
                    None => None,
                },
            ),
    {
        match found {
            None => Err(FsError::NotFound),
            Some(inode) => {
                if self.resolves(inode) {
                    Ok(self.generic_inode_to_stat(inode))
                } else {
                    Err(FsError::Io)
                }
            },
        }
    }

    /// The status of the object that a path lookup found, or nothing.
    pub fn file_stat(&self, found: Option<&Inode>) -> (r: Option<Stat>)
        ensures
            r == (match self.getattr_spec(
                match found {
                    Some(i) => Some(*i),
                    None => None,
                },
            ) {
                Ok(st) => Some(st),
                Err(_) => None,
            }),
    {
        match self.getattr(found) {
            Ok(st) => Some(st),
            Err(_) => None,
        }
    }

    /// The status that a report on one file shows: that of `file_stat`.
    pub fn print_file_stat(&self, found: Option<&Inode>) -> (r: Option<Stat>)
        ensures
            r == (match self.getattr_spec(
                match found {
                    Some(i) => Some(*i),
                    None => None,
                },
            ) {
                Ok(st) => Some(st),
                Err(_) => None,
            }),
    {
        self.file_stat(found)
    }

    /// What `readlink` writes into a buffer of `size` bytes.
    pub open spec fn readlink_spec(found: Option<Inode>, size: usize) -> Result<Seq<u8>, FsError> {
        match found {
            None => Err(FsError::NotFound),
            Some(inode) => if inode.kind.is_symlink_spec() {
                if inode.size + 1 > size || inode.size > inode.target@.len() {
                    Err(FsError::Io)
                } else {
                    Ok(inode.target@.subrange(0, inode.size as int).push(0u8))
                }
            } else {
                Ok(Seq::empty())
            },
        }
    }

    /// The bytes that `readlink` writes into the caller's buffer of `size`
    /// bytes: for a symbolic link the target followed by a zero byte, for
    /// any other object nothing. The lookup that found nothing is
    /// `NotFound`; a buffer that cannot hold the target and its zero byte
    /// is an I/O failure, and so is a target shorter than its recorded size.
    pub fn readlink(&self, found: Option<&Inode>, size: usize) -> (r: Result<Vec<u8>, FsError>)
        ensures
            match r {
                Ok(buf) => Self::readlink_spec(
                    match found {
                        Some(i) => Some(*i),
                        None => None,
                    },
                    size,
                ) == Ok::<Seq<u8>, FsError>(buf@),
                Err(e) => Self::readlink_spec(
                    match found {
                        Some(i) => Some(*i),
                        None => None,
                    },
                    size,
                ) == Err::<Seq<u8>, FsError>(e),
            },
    {
        match found {
            None => Err(FsError::NotFound),
            Some(inode) => {
                if inode.kind.is_symlink() {
                    if inode.size >= size as u64 || inode.size > inode.target.len() as u64 {
                        Err(FsError::Io)
                    } else {
                        let n = inode.size as usize;
                        let mut buf = copy_bytes(
                            vstd::slice::slice_subrange(inode.target.as_slice(), 0, n),
                        );
                        buf.push(0u8);
                        Ok(buf)
                    }
                } else {
                    Ok(Vec::new())
                }
            },
        }
    }

    /// The attribute set that a query on `found` searches, or the error
    /// that ends the query before any search: `missing` where the lookup
    /// found nothing or the inode carries no attributes, an I/O failure
    /// where the archive does not hold the set.
    pub open spec fn xattr_set_spec(self, found: Option<Inode>, missing: FsError) -> Result<int, FsError> {
        match found {
            None => Err(missing),
            Some(inode) => match inode.xattr_index_spec() {
                None => Err(missing),
                Some(idx) => if idx < self.xattrs@.len() {
                    Ok(idx as int)
                } else {
                    Err(FsError::Io)
                },
            },
        }
    }

    fn xattr_set(&self, found: Option<&Inode>, missing: FsError) -> (r: Result<usize, FsError>)
        ensures
            match r {
                Ok(i) => self.xattr_set_spec(
                    match found {
                        Some(i) => Some(*i),
                        None => None,
                    },
                    missing,
                ) == Ok::<int, FsError>(i as int),
                Err(e) => self.xattr_set_spec(
                    match found {
                        Some(i) => Some(*i),
                        None => None,
                    },
                    missing,
                ) == Err::<int, FsError>(e),
            },
    {
        match found {
            None => Err(missing),
            Some(inode) => match inode.xattr_index() {
                None => Err(missing),
                Some(idx) => {
                    if (idx as usize) < self.xattrs.len() {
                        Ok(idx as usize)
                    } else {
                        Err(FsError::Io)
                    }
                },
            },
        }
    }

    /// The value of the extended attribute named `name` on the object that
    /// a path lookup found, for a caller whose buffer has `size` bytes.
    ///
    /// An empty name, a lookup that found nothing and an inode without
    /// attributes are all `NoData`, and so is a name that is no key of the
    /// inode's set, be it the beginning of one. Otherwise the first pair
    /// whose key is the name answers: with `size` zero the value's size
    /// alone, with room the value too, and `ERange` where the buffer is too
    /// small.
    pub fn getxattr(&self, found: Option<&Inode>, name: &[u8], size: usize) -> (r: Result<
        XattrReply,
        FsError,
    >)
        ensures
            name@.len() == 0 ==> r == Err::<XattrReply, FsError>(FsError::NoData),
            name@.len() > 0 ==> (match self.xattr_set_spec(
                match found {
                    Some(i) => Some(*i),
                    None => None,
                },
                FsError::NoData,
            ) {
                Err(e) => r == Err::<XattrReply, FsError>(e),
                Ok(idx) => is_get_reply(r, self.xattrs@[idx].pairs@, name@, size),
            }),
    {
        if name.len() == 0 {
            return Err(FsError::NoData);
        }
        match self.xattr_set(found, FsError::NoData) {
            Err(e) => Err(e),
            Ok(idx) => self.xattrs[idx].get(name, size),
        }
    }

    /// The names of the extended attributes of the object that a path
    /// lookup found, for a caller whose buffer has `size` bytes.
    ///
    /// A lookup that found nothing and an inode without attributes are
    /// `NotFound`. Otherwise every key of the inode's set is listed in
    /// order, each followed by a zero byte: with `size` zero the length of
    /// the list alone, with room the list too, and `ERange` where the
    /// buffer is too small.
    pub fn listxattr(&self, found: Option<&Inode>, size: usize) -> (r: Result<XattrList, FsError>)
        ensures
            match self.xattr_set_spec(
                match found {
                    Some(i) => Some(*i),
                    None => None,
                },
                FsError::NotFound,
            ) {
                Err(e) => r == Err::<XattrList, FsError>(e),
                Ok(idx) => is_list_reply(r, self.xattrs@[idx].pairs@, size),
            },
    {
        match self.xattr_set(found, FsError::NotFound) {
            Err(e) => Err(e),
            Ok(idx) => self.xattrs[idx].list(size),
        }
    }

    /// How a read of `size` bytes at file offset `offset` begins on the
    /// object that a path lookup found.
    pub open spec fn read_spec(found: Option<Inode>, size: usize, offset: u64) -> Result<
        ReadCursor,
        FsError,
    > {
        match found {
            None => Err(FsError::NotFound),
            Some(inode) => if !inode.kind.is_file_spec() {
                Err(FsError::NotFound)
            } else {
                Ok(
                    ReadCursor {
                        offset,
                        off: 0,
                        remain: if size > u32::MAX {
                            u32::MAX
                        } else {
                            size as u32
                        },
                    },
                )
            },
        }
    }

    /// Begins a read of up to `size` bytes at file offset `offset`.
    ///
    /// The lookup that found nothing is `NotFound`, and so is an object
    /// that is not a regular file. Otherwise the cursor stands at the start
    /// with `size` bytes wanted, as far as one request can count them.
    pub fn read(&self, found: Option<&Inode>, size: usize, offset: u64) -> (r: Result<
        ReadCursor,
        FsError,
    >)
        ensures
            r == Self::read_spec(
                match found {
                    Some(i) => Some(*i),
                    None => None,
                },
                size,
                offset,
            ),
    {
        match found {
            None => Err(FsError::NotFound),
            Some(inode) => {
                if !inode.kind.is_file() {
                    Err(FsError::NotFound)
                } else {
                    let remain: u32 = if size > u32::MAX as usize {
                        u32::MAX
                    } else {
                        size as u32
                    };
                    Ok(ReadCursor { offset, off: 0, remain })
                }
            },
        }
    }

    /// The number of bytes that extracting the object a lookup found
    /// delivers: the size of a regular file. Anything else is `NotFound`.
    pub fn extract_one(&self, found: Option<&Inode>) -> (r: Result<u64, FsError>)
        ensures
            r == (match found {
                Some(inode) => if inode.kind.is_file_spec() {
                    Ok(inode.size)
                } else {
                    Err(FsError::NotFound)
                },
                None => Err(FsError::NotFound),
            }),
    {
        match found {
            None => Err(FsError::NotFound),
            Some(inode) => {
                if inode.kind.is_file() {
                    Ok(inode.size)
                } else {
                    Err(FsError::NotFound)
                }
            },
        }
    }
}

/// The rows that list `entries` in this archive: each entry's name with the
/// status of its inode, in the entries' order.
pub open spec fn is_listing(archive: Archive, entries: Seq<DirEntry>, rows: Seq<(String, Stat)>) -> bool {
    &&& rows.len() == entries.len()
    &&& forall|i: int|
        0 <= i < entries.len() ==> (#[trigger] rows[i]).0@ == entries[i].name@ && rows[i].1
            == archive.stat_spec(entries[i].inode)
}

/// The archive holds the attribute set of every entry's inode.
pub open spec fn all_resolve(archive: Archive, entries: Seq<DirEntry>) -> bool {
    forall|i: int| 0 <= i < entries.len() ==> archive.resolves_spec((#[trigger] entries[i]).inode)
}

/// The lookup found a directory.
pub open spec fn found_dir(found: Option<Inode>) -> bool {
    found matches Some(inode) && inode.kind.is_dir_spec()
}

impl Archive {
    /// Opens a reader on the directory that a path lookup found and whose
    /// entries are `entries`. There is none where the lookup found nothing
    /// or found something that is no directory.
    pub fn readdir<'a>(&'a self, found: Option<&Inode>, entries: Vec<DirEntry>) -> (r: Option<
        DirReader<'a>,
    >)
        ensures
            match r {
                Some(dr) => found_dir(
                    match found {
                        Some(i) => Some(*i),
                        None => None,
                    },
                ) && dr.archive() == *self && dr.rest() == entries@,
                None => !found_dir(
                    match found {
                        Some(i) => Some(*i),
                        None => None,
                    },
                ),
            },
    {
        match found {
            None => None,
            Some(inode) => {
                if inode.kind.is_dir() {
                    Some(DirReader::new(self, entries))
                } else {
                    None
                }
            },
        }
    }

    /// The rows that a listing of the directory hands to its callback, in
    /// the directory's entry order.
    ///
    /// `NotFound` where the lookup found nothing or no directory; an I/O
    /// failure where an entry's inode refers to an attribute set that the
    /// archive does not hold.
    pub fn readdir_cb(&self, found: Option<&Inode>, entries: &Vec<DirEntry>) -> (r: Result<
        Vec<(String, Stat)>,
        FsError,
    >)
        ensures
            match r {
                Ok(rows) => found_dir(
                    match found {
                        Some(i) => Some(*i),
                        None => None,
                    },
                ) && all_resolve(*self, entries@) && is_listing(*self, entries@, rows@),
                Err(e) => if found_dir(
                    match found {
                        Some(i) => Some(*i),
                        None => None,
                    },
                ) {
                    e == FsError::Io && !all_resolve(*self, entries@)
                } else {
                    e == FsError::NotFound
                },
            },
    {
        match found {
            None => Err(FsError::NotFound),
            Some(inode) => {
                if !inode.kind.is_dir() {
                    return Err(FsError::NotFound);
                }
                let mut rows: Vec<(String, Stat)> = Vec::new();
                let mut i: usize = 0;
                while i < entries.len()
                    invariant
                        i <= entries.len(),
                        inode.kind.is_dir_spec(),
                        found == Some(inode),
                        all_resolve(*self, entries@.subrange(0, i as int)),
                        is_listing(*self, entries@.subrange(0, i as int), rows@),
                    decreases entries.len() - i,
                {
                    let entry = &entries[i];
                    if !self.resolves(&entry.inode) {
                        proof {
                            assert(!self.resolves_spec(entries@[i as int].inode));
                        }
                        return Err(FsError::Io);
                    }
                    let st = self.generic_inode_to_stat(&entry.inode);
                    rows.push((entry.name.clone(), st));
                    i += 1;
                }
                proof {
                    assert(entries@.subrange(0, entries@.len() as int) =~= entries@);
                }
                Ok(rows)
            },
        }
    }

    /// The rows of a walk of the archive: each walked entry's name with
    /// the status of its inode; nothing where an entry's inode refers to an
    /// attribute set that the archive does not hold.
    pub fn file_list(&self, walked: &Vec<DirEntry>) -> (rows: Vec<(String, Stat)>)
        ensures
            if all_resolve(*self, walked@) {
                is_listing(*self, walked@, rows@)
            } else {
                rows@.len() == 0
            },
    {
        let mut rows: Vec<(String, Stat)> = Vec::new();
        let mut i: usize = 0;
        while i < walked.len()
            invariant
                i <= walked.len(),
                all_resolve(*self, walked@.subrange(0, i as int)),
                is_listing(*self, walked@.subrange(0, i as int), rows@),
            decreases walked.len() - i,
        {
            let entry = &walked[i];
            if !self.resolves(&entry.inode) {
                return Vec::new();
            }
            let st = self.generic_inode_to_stat(&entry.inode);
            rows.push((entry.name.clone(), st));
            i += 1;
        }
        proof {
            assert(walked@.subrange(0, walked@.len() as int) =~= walked@);
        }
        rows
    }

    /// The rows that a printed listing shows: those of `file_list`.
    pub fn print_list(&self, walked: &Vec<DirEntry>) -> (rows: Vec<(String, Stat)>)
        ensures
            if all_resolve(*self, walked@) {
                is_listing(*self, walked@, rows@)
            } else {
                rows@.len() == 0
            },
    {
        self.file_list(walked)
    }
}

/// A reader over the entries of one directory. It yields each entry once,
/// in order, and cannot be restarted.
pub struct DirReader<'a> {
    ctx: &'a Archive,
    entries: Vec<DirEntry>,
    pos: usize,
}

impl<'a> DirReader<'a> {
    #[verifier::type_invariant]
    spec fn in_range(self) -> bool {
        self.pos <= self.entries@.len()
    }

    /// The archive that the directory belongs to.
    pub closed spec fn archive(self) -> Archive {
        *self.ctx
    }

    /// The entries not yet yielded.
    pub closed spec fn rest(self) -> Seq<DirEntry> {
        self.entries@.subrange(self.pos as int, self.entries@.len() as int)
    }

    /// A reader that stands before the first of `entries`.
    pub fn new(ctx: &'a Archive, entries: Vec<DirEntry>) -> (r: Self)
        ensures
            r.archive() == *ctx,
            r.rest() == entries@,
    {
        let r = DirReader { ctx, entries, pos: 0 };
        proof {
            assert(r.entries@.subrange(0, r.entries@.len() as int) =~= r.entries@);
        }
        r
    }

    /// Yields the next entry: its name and the status of its inode.
    ///
    /// The reader ends, for good, after the last entry, and also at an
    /// entry whose inode refers to an attribute set that the archive does
    /// not hold.
    pub fn next(&mut self) -> (r: Option<(String, Stat)>)
        ensures
            final(self).archive() == old(self).archive(),
            match r {
                Some(row) => {
                    &&& old(self).rest().len() > 0
                    &&& old(self).archive().resolves_spec(old(self).rest()[0].inode)
                    &&& row.0@ == old(self).rest()[0].name@
                    &&& row.1 == old(self).archive().stat_spec(old(self).rest()[0].inode)
                    &&& final(self).rest() == old(self).rest().drop_first()
                },
                None => {
                    &&& old(self).rest().len() == 0 || !old(self).archive().resolves_spec(
                        old(self).rest()[0].inode,
                    )
                    &&& final(self).rest().len() == 0
                },
            },
    {
        proof {
            use_type_invariant(&*self);
        }
        if self.pos >= self.entries.len() {
            return None;
        }
        let ctx = self.ctx;
        let entry = &self.entries[self.pos];
        if !ctx.resolves(&entry.inode) {
            self.pos = self.entries.len();
            return None;
        }
        let st = ctx.generic_inode_to_stat(&entry.inode);
        let name = entry.name.clone();
        self.pos = self.pos + 1;
        proof {
            assert(final(self).rest() =~= old(self).rest().drop_first());
        }
        Some((name, st))
    }
}

/// A listing row carries the status that `getattr` gives for the same
/// inode: what a directory listing shows of a child is what a direct query
/// on that child answers.
pub proof fn lemma_listing_matches_getattr(archive: Archive, entries: Seq<DirEntry>, rows: Seq<(String, Stat)>, i: int)
    requires
        all_resolve(archive, entries),
        is_listing(archive, entries, rows),
        0 <= i < entries.len(),
    ensures
        rows.len() == entries.len(),
        rows[i].0@ == entries[i].name@,
        archive.getattr_spec(Some(entries[i].inode)) == Ok::<Stat, FsError>(rows[i].1),
{
}

/// The status of a sound symbolic link gives as its size the length of
/// the string that `readlink` writes: in a buffer with room for the
/// target and its zero byte, the bytes written are the target, none of
/// them zero, followed by one zero byte.
pub proof fn lemma_symlink_size_is_target_length(archive: Archive, inode: Inode, size: usize)
    requires
        inode.well_formed(),
        inode.kind.is_symlink_spec(),
        size > inode.size,
    ensures
        ({
            let n = archive.stat_spec(inode).st_size as int;
            &&& Archive::readlink_spec(Some(inode), size) matches Ok(buf)
            &&& buf.len() == n + 1
            &&& buf[n] == 0
            &&& forall|i: int| 0 <= i < n ==> buf[i] != 0
            &&& buf.subrange(0, n) == inode.target@
        }),
{
    let buf = inode.target@.subrange(0, inode.size as int).push(0u8);
    let n = archive.stat_spec(inode).st_size as int;
    assert(n == inode.size);
    assert(buf.subrange(0, n) =~= inode.target@);
    assert forall|i: int| 0 <= i < n implies buf[i] != 0 by {
        assert(buf[i] == inode.target@[i]);
    }
}

/// The path of the entry `name` in the directory `dir`, from the root:
/// the name alone in the root, and else the directory, a `/` and the name.
pub open spec fn path_in(dir: Seq<char>, name: Seq<char>) -> Seq<char> {
    if dir.len() == 0 {
        name
    } else {
        dir + "/"@ + name
    }
}

/// The entries of the directory `dir` as a walk records them: each under
/// its path from the root, with its inode.
pub open spec fn is_visit(dir: Seq<char>, entries: Seq<DirEntry>, rows: Seq<DirEntry>) -> bool {
    &&& rows.len() == entries.len()
    &&& forall|i: int|
        0 <= i < entries.len() ==> (#[trigger] rows[i]).name@ == path_in(dir, entries[i].name@)
            && rows[i].inode == entries[i].inode
}

/// The paths of the directories among `rows`, in order.
pub open spec fn dirs_of(rows: Seq<DirEntry>) -> Seq<Seq<char>>
    decreases rows.len(),
{
    if rows.len() == 0 {
        Seq::empty()
    } else if rows.last().inode.kind.is_dir_spec() {
        dirs_of(rows.drop_last()).push(rows.last().name@)
    } else {
        dirs_of(rows.drop_last())
    }
}

/// A walk of the archive's tree: the directories still to be read, and
/// the entries found so far. The caller reads each directory that the walk
/// names and hands its entries back.
pub struct TreeWalk {
    pending: Vec<String>,
    rows: Vec<DirEntry>,
}

impl TreeWalk {
    /// The paths of the directories still to be read; the last is read next.
    pub closed spec fn pending(self) -> Seq<Seq<char>> {
        crate::text::texts_of(self.pending@)
    }

    /// The entries found so far.
    pub closed spec fn rows(self) -> Seq<DirEntry> {
        self.rows@
    }

    /// A walk that begins at the directory `top`, given by its path from
    /// the root without a slash at either end; the empty path is the root.
    pub fn new(top: &str) -> (w: TreeWalk)
        ensures
            w.pending() == seq![top@],
            w.rows().len() == 0,
    {
        let mut pending: Vec<String> = Vec::new();
        pending.push(String::from_str(top));
        let w = TreeWalk { pending, rows: Vec::new() };
        proof {
            assert(w.pending() =~= seq![top@]);
        }
        w
    }

    /// Names the directory to read next, if any is left.
    pub fn next_dir(&mut self) -> (dir: Option<String>)
        ensures
            final(self).rows() == old(self).rows(),
            match dir {
                Some(d) => old(self).pending().len() > 0 && d@ == old(self).pending().last()
                    && final(self).pending() == old(self).pending().drop_last(),
                None => old(self).pending().len() == 0 && final(self).pending().len() == 0,
            },
    {
        let dir = self.pending.pop();
        proof {
            if dir is Some {
                assert(final(self).pending() =~= old(self).pending().drop_last());
            }
        }
        dir
    }

    /// Takes the entries of the directory `dir`: each is recorded under its
    /// path from the root, and each that is a directory is put down to be
    /// read in turn.
    pub fn visit(&mut self, dir: &str, entries: Vec<DirEntry>)
        ensures
            final(self).rows().len() == old(self).rows().len() + entries@.len(),
            final(self).rows().subrange(0, old(self).rows().len() as int) == old(self).rows(),
            is_visit(
                dir@,
                entries@,
                final(self).rows().subrange(
                    old(self).rows().len() as int,
                    final(self).rows().len() as int,
                ),
            ),
            final(self).pending() == old(self).pending() + dirs_of(
                final(self).rows().subrange(
                    old(self).rows().len() as int,
                    final(self).rows().len() as int,
                ),
            ),
    {
        let ghost before = self.rows@;
        let ghost waiting = self.pending();
        let mut entries = entries;
        let ghost all = entries@;
        let n = entries.len();
        let mut taken: Vec<DirEntry> = Vec::new();
        while entries.len() > 0
            invariant
                entries@.len() + taken@.len() == n,
                n == all.len(),
                entries@ == all.subrange(0, entries@.len() as int),
                forall|k: int|
                    0 <= k < taken@.len() ==> (#[trigger] taken@[k]).name@ == path_in(
                        dir@,
                        all[n - 1 - k].name@,
                    ) && taken@[k].inode == all[n - 1 - k].inode,
            decreases entries.len(),
        {
            let e = entries.pop().unwrap();
            let mut name = String::from_str(dir);
            if dir.unicode_len() > 0 {
                name.append("/");
            }
            name.append(e.name.as_str());
            taken.push(DirEntry { name, inode: e.inode });
            proof {
                assert(entries@ =~= all.subrange(0, entries@.len() as int));
            }
        }
        proof {
            assert(self.rows@.subrange(0, before.len() as int) =~= before);
            assert(self.rows@.subrange(before.len() as int, before.len() as int) =~= Seq::<
                DirEntry,
            >::empty());
            assert(self.pending() + Seq::<Seq<char>>::empty() =~= self.pending());
        }
        while taken.len() > 0
            invariant
                n == all.len(),
                taken@.len() <= n,
                before.len() <= self.rows@.len(),
                self.rows@.len() == before.len() + (n - taken@.len()),
                self.rows@.subrange(0, before.len() as int) == before,
                forall|k: int|
                    0 <= k < taken@.len() ==> (#[trigger] taken@[k]).name@ == path_in(
                        dir@,
                        all[n - 1 - k].name@,
                    ) && taken@[k].inode == all[n - 1 - k].inode,
                is_visit(
                    dir@,
                    all.subrange(0, n - taken@.len()),
                    self.rows@.subrange(before.len() as int, self.rows@.len() as int),
                ),
                self.pending() == waiting + dirs_of(
                    self.rows@.subrange(before.len() as int, self.rows@.len() as int),
                ),
            decreases taken.len(),
        {
            let ghost done = self.rows@.subrange(before.len() as int, self.rows@.len() as int);
            let ghost listed = self.pending();
            let row = taken.pop().unwrap();
            if row.inode.kind.is_dir() {
                self.pending.push(row.name.clone());
                proof {
                    assert(self.pending() =~= listed.push(row.name@));
                }
            }
            self.rows.push(row);
            proof {
                let now = self.rows@.subrange(before.len() as int, self.rows@.len() as int);
                assert(now =~= done.push(row));
                assert(now.drop_last() =~= done);
                assert(self.rows@.subrange(0, before.len() as int) =~= before);
                assert(waiting + dirs_of(done).push(row.name@) =~= (waiting + dirs_of(
                    done,
                )).push(row.name@));
            }
        }
        proof {
            assert(all.subrange(0, n as int) =~= all);
        }
    }

    /// Ends the walk and hands out the entries found.
    pub fn finish(self) -> (rows: Vec<DirEntry>)
        ensures
            rows@ == self.rows(),
    {
        self.rows
    }
}

/// What every archive back end offers besides the filesystem operations.
pub trait ArchiveFs {
    /// The archive's superblock.
    fn get_sb(&self) -> Superblock;

    /// The length of the archive file.
    fn get_archive_file_size(&self) -> u64;

    /// The number of bytes that extracting the object a lookup found delivers.
    fn extract_one(&self, found: Option<&Inode>) -> Result<u64, FsError>;

    /// The rows that a printed listing of the walked entries shows.
    fn print_list(&self, walked: &Vec<DirEntry>) -> Vec<(String, Stat)>;

    /// The status that a report on the object a lookup found shows.
    fn print_file_stat(&self, found: Option<&Inode>) -> Option<Stat>;

    /// The rows of a walk of the archive.
    fn file_list(&self, walked: &Vec<DirEntry>) -> Vec<(String, Stat)>;

    /// The status of the object that a path lookup found, or nothing.
    fn file_stat(&self, found: Option<&Inode>) -> Option<Stat>;
}

impl ArchiveFs for Archive {
    fn get_sb(&self) -> (sb: Superblock)
        ensures
            sb == self.sb,
    {
        self.sb
    }

    fn get_archive_file_size(&self) -> (n: u64)
        ensures
            n == self.file_size,
    {
        self.file_size
    }

    fn extract_one(&self, found: Option<&Inode>) -> (r: Result<u64, FsError>)
        ensures
            r == (match found {
                Some(inode) => if inode.kind.is_file_spec() {
                    Ok(inode.size)
                } else {
                    Err(FsError::NotFound)
                },
                None => Err(FsError::NotFound),
            }),
    {
        Archive::extract_one(self, found)
    }

    fn print_list(&self, walked: &Vec<DirEntry>) -> (rows: Vec<(String, Stat)>)
        ensures
            if all_resolve(*self, walked@) {
                is_listing(*self, walked@, rows@)
            } else {
                rows@.len() == 0
            },
    {
        Archive::file_list(self, walked)
    }

    fn print_file_stat(&self, found: Option<&Inode>) -> (r: Option<Stat>)
        ensures
            r == (match self.getattr_spec(
                match found {
                    Some(i) => Some(*i),
                    None => None,
                },
            ) {
                Ok(st) => Some(st),
                Err(_) => None,
            }),
    {
        Archive::file_stat(self, found)
    }

    fn file_list(&self, walked: &Vec<DirEntry>) -> (rows: Vec<(String, Stat)>)
        ensures
            if all_resolve(*self, walked@) {
                is_listing(*self, walked@, rows@)
            } else {
                rows@.len() == 0
            },
    {
        Archive::file_list(self, walked)
    }

    fn file_stat(&self, found: Option<&Inode>) -> (r: Option<Stat>)
        ensures
            r == (match self.getattr_spec(
                match found {
                    Some(i) => Some(*i),
                    None => None,
                },
            ) {
                Ok(st) => Some(st),
                Err(_) => None,
            }),
    {
        Archive::file_stat(self, found)
    }
}

} // verus!
