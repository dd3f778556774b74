//! Extended attributes: the key-value pairs of one inode and the two
//! queries made on them.

use crate::errors::FsError;
use vstd::prelude::*;

verus! {

/// One extended attribute. The key is qualified by its namespace prefix,
/// the way a caller names it.
#[derive(Debug)]
pub struct XattrPair {
    pub key: Vec<u8>,
    pub value: Vec<u8>,
}

/// The attributes stored under one xattr index, in the order of the
/// archive's key-value stream.
#[derive(Debug)]
pub struct XattrSet {
    /// The bytes that the set takes in the archive, uncompressed.
    pub size: u32,
    pub pairs: Vec<XattrPair>,
}

/// The answer to a query for one attribute's value.
#[derive(Debug)]
pub struct XattrReply {
    /// The size of the value.
    pub size: usize,
    /// The value, where the caller gave room for it; empty where it only asked for the size.
    pub data: Vec<u8>,
}

/// The answer to a query for the attribute names.
#[derive(Debug)]
pub struct XattrList {
    /// The bytes that the name list takes.
    pub total: usize,
    /// The names, each followed by a zero byte, where the caller gave room
    /// for them; empty where it only asked for the length.
    pub data: Vec<u8>,
}

/// `name` names `key`: the two are the same bytes.
pub open spec fn key_matches(name: Seq<u8>, key: Seq<u8>) -> bool {
    key == name
}

/// The pair at `i` is the first one whose key is `name`.
pub open spec fn is_first_match(pairs: Seq<XattrPair>, name: Seq<u8>, i: int) -> bool {
    &&& 0 <= i < pairs.len()
    &&& key_matches(name, pairs[i].key@)
    &&& forall|j: int| 0 <= j < i ==> !key_matches(name, #[trigger] pairs[j].key@)
}

/// No pair has the key `name`.
pub open spec fn no_match(pairs: Seq<XattrPair>, name: Seq<u8>) -> bool {
    forall|j: int| 0 <= j < pairs.len() ==> !key_matches(name, #[trigger] pairs[j].key@)
}

/// `r` is the answer for an attribute `value` to a caller whose buffer has
/// `size` bytes: with no buffer the size alone, with room the size and the
/// value, and a range error where the buffer is too small.
pub open spec fn is_value_reply(r: Result<XattrReply, FsError>, value: Seq<u8>, size: usize) -> bool {
    if size == 0 {
        r matches Ok(reply) && reply.size == value.len() && reply.data@.len() == 0
    } else if value.len() <= size {
        r matches Ok(reply) && reply.size == value.len() && reply.data@ == value
    } else {
        r == Err::<XattrReply, FsError>(FsError::ERange)
    }
}

/// `r` is the answer to a query for the attribute named `name` among
/// `pairs`: `NoData` where no key is that name, and else the answer for the
/// value of the first pair whose key is.
pub open spec fn is_get_reply(
    r: Result<XattrReply, FsError>,
    pairs: Seq<XattrPair>,
    name: Seq<u8>,
    size: usize,
) -> bool {
    &&& no_match(pairs, name) ==> r == Err::<XattrReply, FsError>(FsError::NoData)
    &&& forall|i: int| is_first_match(pairs, name, i) ==> is_value_reply(r, pairs[i].value@, size)
}

/// The name list of `pairs`: every key, in order, each followed by a zero byte.
pub open spec fn name_list(pairs: Seq<XattrPair>) -> Seq<u8>
    decreases pairs.len(),
{
    if pairs.len() == 0 {
        Seq::empty()
    } else {
        name_list(pairs.drop_last()) + pairs.last().key@ + seq![0u8]
    }
}

/// The bytes that the names of `pairs` take: for each key its length and
/// one more for the zero byte that ends it.
pub open spec fn names_length(pairs: Seq<XattrPair>) -> nat
    decreases pairs.len(),
{
    if pairs.len() == 0 {
        0
    } else {
        names_length(pairs.drop_last()) + pairs.last().key@.len() + 1
    }
}

/// The name list is as long as the names, each with its zero byte, add up to.
pub proof fn lemma_name_list_length(pairs: Seq<XattrPair>)
    ensures
        name_list(pairs).len() == names_length(pairs),
    decreases pairs.len(),
{
    if pairs.len() > 0 {
        lemma_name_list_length(pairs.drop_last());
    }
}

/// A query for the names with no buffer is answered with the length that
/// holds every name and its zero byte, and with no bytes, wherever that
/// length is one a machine word can express.
pub proof fn lemma_list_reply_without_buffer(r: Result<XattrList, FsError>, pairs: Seq<XattrPair>)
    requires
        is_list_reply(r, pairs, 0),
        names_length(pairs) <= usize::MAX,
    ensures
        r matches Ok(reply) && reply.total == names_length(pairs) && reply.data@.len() == 0,
{
    lemma_name_list_length(pairs);
}

/// A query for the value of a named attribute with no buffer is answered
/// with the size of that attribute's value, and with no bytes.
pub proof fn lemma_get_reply_without_buffer(
    r: Result<XattrReply, FsError>,
    pairs: Seq<XattrPair>,
    name: Seq<u8>,
    i: int,
)
    requires
        is_get_reply(r, pairs, name, 0),
        is_first_match(pairs, name, i),
    ensures
        r matches Ok(reply) && reply.size == pairs[i].value@.len() && reply.data@.len() == 0,
        pairs[i].key@ == name,
{
}

/// A query for a named attribute with a buffer is answered with the value
/// where the buffer holds it, and with a range error where it does not.
pub proof fn lemma_get_reply_with_buffer(
    r: Result<XattrReply, FsError>,
    pairs: Seq<XattrPair>,
    name: Seq<u8>,
    size: usize,
    i: int,
)
    requires
        is_get_reply(r, pairs, name, size),
        is_first_match(pairs, name, i),
        size > 0,
    ensures
        pairs[i].value@.len() > size ==> r == Err::<XattrReply, FsError>(FsError::ERange),
        pairs[i].value@.len() <= size ==> (r matches Ok(reply) && reply.size
            == pairs[i].value@.len() && reply.data@ == pairs[i].value@),
{
}

/// A name that is no key of the set, though it be the beginning of one,
/// is answered with `NoData`.
pub proof fn lemma_get_reply_for_absent_name(
    r: Result<XattrReply, FsError>,
    pairs: Seq<XattrPair>,
    name: Seq<u8>,
    size: usize,
)
    requires
        is_get_reply(r, pairs, name, size),
        forall|j: int| 0 <= j < pairs.len() ==> (#[trigger] pairs[j]).key@ != name,
    ensures
        r == Err::<XattrReply, FsError>(FsError::NoData),
{
    assert(no_match(pairs, name)) by {
        assert forall|j: int| 0 <= j < pairs.len() implies !key_matches(
            name,
            #[trigger] pairs[j].key@,
        ) by {
            assert(pairs[j].key@ != name);
        }
    }
}

/// `r` is the answer for the names of `pairs` to a caller whose buffer has
/// `size` bytes: with no buffer the length alone, with room the length and
/// the list, and a range error where the buffer is too small.
pub open spec fn is_list_reply(r: Result<XattrList, FsError>, pairs: Seq<XattrPair>, size: usize) -> bool {
    let list = name_list(pairs);
    if list.len() > usize::MAX {
        r == Err::<XattrList, FsError>(FsError::ERange)
    } else if size == 0 {
        r matches Ok(reply) && reply.total == list.len() && reply.data@.len() == 0
    } else if list.len() <= size {
        r matches Ok(reply) && reply.total == list.len() && reply.data@ == list
    } else {
        r == Err::<XattrList, FsError>(FsError::ERange)
    }
}

/// Tells whether `key` is the name `name`.
pub fn key_selected(name: &[u8], key: &[u8]) -> (b: bool)
    ensures
        b == key_matches(name@, key@),
{
    if name.len() != key.len() {
        return false;
    }
    let mut i: usize = 0;
    while i < name.len()
        invariant
            i <= name.len(),
            name.len() == key.len(),
            forall|j: int| 0 <= j < i ==> name@[j] == key@[j],
        decreases name.len() - i,
    {
        if name[i] != key[i] {
            return false;
        }
        i += 1;
    }
    proof {
        assert(key@ =~= name@);
    }
    true
}

/// Finds the first pair whose key is `name`.
pub fn find_xattr(pairs: &Vec<XattrPair>, name: &[u8]) -> (r: Option<usize>)
    ensures
        match r {
            Some(i) => is_first_match(pairs@, name@, i as int),
            None => no_match(pairs@, name@),
        },
{
    let mut i: usize = 0;
    while i < pairs.len()
        invariant
            i <= pairs.len(),
            forall|j: int| 0 <= j < i ==> !key_matches(name@, #[trigger] pairs@[j].key@),
        decreases pairs.len() - i,
    {
        if key_selected(name, pairs[i].key.as_slice()) {
            return Some(i);
        }
        i += 1;
    }
    None
}

/// Copies a slice into a new vector.
pub fn copy_bytes(src: &[u8]) -> (v: Vec<u8>)
    ensures
        v@ == src@,
{
    let mut v: Vec<u8> = Vec::new();
    let mut i: usize = 0;
    while i < src.len()
        invariant
            i <= src.len(),
            v@ == src@.subrange(0, i as int),
        decreases src.len() - i,
    {
        v.push(src[i]);
        proof {
            assert(v@ =~= src@.subrange(0, i + 1));
        }
        i += 1;
    }
    proof {
        assert(src@.subrange(0, src@.len() as int) =~= src@);
    }
    v
}

/// Answers a query for `value` from a caller whose buffer has `size` bytes.
pub fn value_reply(value: &[u8], size: usize) -> (r: Result<XattrReply, FsError>)
    ensures
        is_value_reply(r, value@, size),
{
    if size == 0 {
        Ok(XattrReply { size: value.len(), data: Vec::new() })
    } else if value.len() <= size {
        Ok(XattrReply { size: value.len(), data: copy_bytes(value) })
    } else {
        Err(FsError::ERange)
    }
}

impl XattrSet {
    /// Answers a query for the value of the attribute named `name`.
    ///
    /// The first pair whose key is `name` answers; a name that is only the
    /// beginning of a key names no attribute, and where no key is the name
    /// the attribute is absent.
    pub fn get(&self, name: &[u8], size: usize) -> (r: Result<XattrReply, FsError>)
        ensures
            is_get_reply(r, self.pairs@, name@, size),
    {
        match find_xattr(&self.pairs, name) {
            None => Err(FsError::NoData),
            Some(i) => {
                proof {
                    assert forall|k: int| is_first_match(self.pairs@, name@, k) implies k == i by {
                        if k < i {
                            assert(!key_matches(name@, self.pairs@[k].key@));
                        } else if i < k {
                            assert(!key_matches(name@, self.pairs@[i as int].key@));
                        }
                    }
                }
                value_reply(self.pairs[i].value.as_slice(), size)
            },
        }
    }

    /// Answers a query for the names of all attributes of the set.
    pub fn list(&self, size: usize) -> (r: Result<XattrList, FsError>)
        ensures
            is_list_reply(r, self.pairs@, size),
    {
        let mut data: Vec<u8> = Vec::new();
        let mut i: usize = 0;
        while i < self.pairs.len()
            invariant
                i <= self.pairs.len(),
                data@ == name_list(self.pairs@.subrange(0, i as int)),
            decreases self.pairs.len() - i,
        {
            let key = self.pairs[i].key.as_slice();
            proof {
                let next = self.pairs@.subrange(0, i + 1);
                assert(next.drop_last() =~= self.pairs@.subrange(0, i as int));
                assert(next.last() == self.pairs@[i as int]);
                lemma_name_list_grows(self.pairs@, i as int, self.pairs@.len() as int);
            }
            if key.len() >= usize::MAX - data.len() {
                proof {
                    lemma_name_list_grows(self.pairs@, i + 1, self.pairs@.len() as int);
                    assert(self.pairs@.subrange(0, self.pairs@.len() as int) =~= self.pairs@);
                }
                return Err(FsError::ERange);
            }
            let mut j: usize = 0;
            let ghost before = data@;
            while j < key.len()
                invariant
                    j <= key.len(),
                    data@ == before + key@.subrange(0, j as int),
                    before.len() + key.len() < usize::MAX,
                decreases key.len() - j,
            {
                data.push(key[j]);
                proof {
                    assert(data@ =~= before + key@.subrange(0, j + 1));
                }
                j += 1;
            }
            data.push(0u8);
            proof {
                assert(key@.subrange(0, key@.len() as int) =~= key@);
            }
            i += 1;
        }
        proof {
            assert(self.pairs@.subrange(0, self.pairs@.len() as int) =~= self.pairs@);
        }
        let total = data.len();
        if size == 0 {
            Ok(XattrList { total, data: Vec::new() })
        } else if total <= size {
            Ok(XattrList { total, data })
        } else {
            Err(FsError::ERange)
        }
    }
}

/// A longer run of pairs has a name list at least as long.
pub proof fn lemma_name_list_grows(pairs: Seq<XattrPair>, i: int, j: int)
    requires
        0 <= i <= j <= pairs.len(),
    ensures
        name_list(pairs.subrange(0, i)).len() <= name_list(pairs.subrange(0, j)).len(),
    decreases j - i,
{
    if i < j {
        lemma_name_list_grows(pairs, i, j - 1);
        assert(pairs.subrange(0, j).drop_last() =~= pairs.subrange(0, j - 1));
    }
}

} // verus!
