//! The filesystem callbacks: what each hands back to the kernel bridge.

use crate::errors::{FsError, EACCES};
use crate::inode::Inode;
use crate::squashfs::Archive;
use crate::stat::Stat;
use crate::xattr::{is_first_match, is_value_reply, name_list, no_match, XattrPair};
use vstd::prelude::*;

verus! {

/// Mask of the access mode in the flags of an open.
pub const O_ACCMODE: i32 = 3;

/// The access mode of an open for reading only.
pub const O_RDONLY: i32 = 0;

/// Judges the flags of an open: the archive is read-only, so any access
/// mode but reading is refused.
pub fn open_check(flags: i32) -> (r: Result<(), FsError>)
    ensures
        r == if flags & O_ACCMODE != O_RDONLY {
            Err::<(), FsError>(FsError::Access)
        } else {
            Ok::<(), FsError>(())
        },
{
    if flags & O_ACCMODE != O_RDONLY {
        Err(FsError::Access)
    } else {
        Ok(())
    }
}

/// The code of the callback that opens a file: zero for an open for
/// reading, and the code of a refused access for any other.
pub fn ops_open(flags: i32) -> (code: i32)
    ensures
        code == if flags & O_ACCMODE != O_RDONLY {
            -EACCES
        } else {
            0
        },
{
    match open_check(flags) {
        Ok(_) => 0,
        Err(e) => e.to_return_code(),
    }
}

/// The code that a callback hands back for a failure.
pub open spec fn code_of(e: FsError) -> i32 {
    (-e.errno_spec()) as i32
}

/// A count as a callback's code carries it: in 32 bits, the largest such
/// number standing for anything beyond it.
pub open spec fn count_code(n: usize) -> i32 {
    if n > i32::MAX {
        i32::MAX
    } else {
        n as i32
    }
}

fn code_for_count(n: usize) -> (c: i32)
    ensures
        c == count_code(n),
{
    if n > i32::MAX as usize {
        i32::MAX
    } else {
        n as i32
    }
}

/// The callback that queries an object's status: zero and the status, or
/// the failure's code.
pub fn ops_getattr(archive: &Archive, found: Option<&Inode>) -> (r: (i32, Option<Stat>))
    ensures
        match archive.getattr_spec(
            match found {
                Some(i) => Some(*i),
                None => None,
            },
        ) {
            Ok(st) => r == (0i32, Some(st)),
            Err(e) => r == (code_of(e), None::<Stat>),
        },
{
    match archive.getattr(found) {
        Ok(st) => (0, Some(st)),
        Err(e) => (e.to_return_code(), None),
    }
}

/// The callback that reads a symbolic link: zero and the bytes for the
/// caller's buffer, or the failure's code.
pub fn ops_readlink(archive: &Archive, found: Option<&Inode>, size: usize) -> (r: (i32, Vec<u8>))
    ensures
        match Archive::readlink_spec(
            match found {
                Some(i) => Some(*i),
                None => None,
            },
            size,
        ) {
            Ok(bytes) => r.0 == 0 && r.1@ == bytes,
            Err(e) => r.0 == code_of(e) && r.1@.len() == 0,
        },
{
    match archive.readlink(found, size) {
        Ok(buf) => (0, buf),
        Err(e) => (e.to_return_code(), Vec::new()),
    }
}

/// `r` hands `value` to a caller whose buffer has `size` bytes: the code
/// is the value's size, with the value where the caller gave room for it,
/// and the code of a range error where the buffer is too small.
pub open spec fn is_value_code(r: (i32, Vec<u8>), value: Seq<u8>, size: usize) -> bool {
    if size == 0 {
        r.0 == count_code(value.len() as usize) && r.1@.len() == 0
    } else if value.len() <= size {
        r.0 == count_code(value.len() as usize) && r.1@ == value
    } else {
        r.0 == code_of(FsError::ERange) && r.1@.len() == 0
    }
}

/// `r` answers a query for the attribute named `name` among `pairs`.
pub open spec fn is_get_code(r: (i32, Vec<u8>), pairs: Seq<XattrPair>, name: Seq<u8>, size: usize) -> bool {
    &&& no_match(pairs, name) ==> r.0 == code_of(FsError::NoData) && r.1@.len() == 0
    &&& forall|i: int| is_first_match(pairs, name, i) ==> is_value_code(r, pairs[i].value@, size)
}

/// `r` answers a query for the names of `pairs`: the code is the length
/// of the name list, with the list where the caller gave room for it, and
/// the code of a range error where the buffer is too small.
pub open spec fn is_list_code(r: (i32, Vec<u8>), pairs: Seq<XattrPair>, size: usize) -> bool {
    let list = name_list(pairs);
    if list.len() > usize::MAX {
        r.0 == code_of(FsError::ERange) && r.1@.len() == 0
    } else if size == 0 {
        r.0 == count_code(list.len() as usize) && r.1@.len() == 0
    } else if list.len() <= size {
        r.0 == count_code(list.len() as usize) && r.1@ == list
    } else {
        r.0 == code_of(FsError::ERange) && r.1@.len() == 0
    }
}

/// The callback that queries an extended attribute. An empty name is
/// answered with zero before the archive is asked; otherwise the code is
/// the value's size, or that of the failure.
pub fn ops_getxattr(archive: &Archive, found: Option<&Inode>, name: &[u8], size: usize) -> (r: (
    i32,
    Vec<u8>,
))
    ensures
        name@.len() == 0 ==> r.0 == 0 && r.1@.len() == 0,
        name@.len() > 0 ==> (match archive.xattr_set_spec(
            match found {
                Some(i) => Some(*i),
                None => None,
            },
            FsError::NoData,
        ) {
            Err(e) => r.0 == code_of(e) && r.1@.len() == 0,
            Ok(idx) => is_get_code(r, archive.xattrs@[idx].pairs@, name@, size),
        }),
{
    if name.len() == 0 {
        return (0, Vec::new());
    }
    let reply = archive.getxattr(found, name, size);
    let ghost seen = reply;
    let r = match reply {
        Ok(x) => (code_for_count(x.size), x.data),
        Err(e) => (e.to_return_code(), Vec::new()),
    };
    proof {
        let set = archive.xattr_set_spec(
            match found {
                Some(i) => Some(*i),
                None => None,
            },
            FsError::NoData,
        );
        if let Ok(idx) = set {
            let pairs = archive.xattrs@[idx].pairs@;
            assert forall|i: int| is_first_match(pairs, name@, i) implies is_value_code(
                r,
                pairs[i].value@,
                size,
            ) by {
                assert(is_value_reply(seen, pairs[i].value@, size));
            }
        }
    }
    r
}

/// The callback that lists the names of the extended attributes: the
/// code is the length of the list, or that of the failure.
pub fn ops_listxattr(archive: &Archive, found: Option<&Inode>, size: usize) -> (r: (i32, Vec<u8>))
    ensures
        match archive.xattr_set_spec(
            match found {
                Some(i) => Some(*i),
                None => None,
            },
            FsError::NotFound,
        ) {
            Err(e) => r.0 == code_of(e) && r.1@.len() == 0,
            Ok(idx) => is_list_code(r, archive.xattrs@[idx].pairs@, size),
        },
{
    match archive.listxattr(found, size) {
        Ok(x) => (code_for_count(x.total), x.data),
        Err(e) => (e.to_return_code(), Vec::new()),
    }
}

/// The code of the callbacks that have nothing to decide: releasing a file.
pub fn ops_release() -> (code: i32)
    ensures
        code == 0,
{
    0
}

} // verus!
