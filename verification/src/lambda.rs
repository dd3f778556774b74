//! The decisions of the object-store front end: how a request's key maps
//! into an archive, which entries a listing page holds, and which answer a
//! request gets.

use crate::codec::{http_range_parse, http_ranges_parsed, random_alphanumeric, is_alphanumeric};
use crate::hole::HoleDetectMode;
use crate::output::{
    HeadObjectHeaders, HeadObjectResponse, ListBucketResult, ListObjectsResponse, ListResultXml,
    Object,
};
use crate::stat::Stat;
use crate::text::{
    chars_eq, decimal, find_last, last_index_of, leading_repeats, lemma_last_index_of,
    push_decimal, slice_string, starts_with, starts_with_spec, to_chars, trim_start_all,
};
use vstd::prelude::*;
use vstd::string::{StrSliceExecFns, StringExecFns, StringSliceAdditionalSpecFns};

verus! {

/// The directory that extracted files are written to.
pub const EXTRACT_TMP_DIR: &'static str = "/tmp/s3archivefs_temp_files";

/// The largest number of keys on a listing page when the request names none.
pub const DEFAULT_MAX_KEYS: usize = 1000;

/// The part of `s` before its last `/`; nothing where it has none.
pub open spec fn before_last_slash(s: Seq<char>) -> Seq<char> {
    let i = last_index_of(s, '/');
    if i < 0 {
        Seq::empty()
    } else {
        s.subrange(0, i)
    }
}

/// The part of `s` after its last `/`; all of it where it has none.
pub open spec fn after_last_slash(s: Seq<char>) -> Seq<char> {
    s.subrange(last_index_of(s, '/') + 1, s.len() as int)
}

/// The prefix of a repository path whose last component is the repository
/// object: the path before its last `/`. There is none where the last
/// component is another name.
pub open spec fn repo_prefix_spec(repo_path: Seq<char>, repo_object: Seq<char>) -> Option<Seq<char>> {
    if after_last_slash(repo_path) == repo_object {
        Some(before_last_slash(repo_path))
    } else {
        None
    }
}

fn head_before_slash(s: &str, chars: &Vec<char>) -> (r: String)
    requires
        chars@ == s@,
    ensures
        r@ == before_last_slash(s@),
{
    match find_last(chars.as_slice(), '/') {
        None => String::new(),
        Some(i) => {
            proof {
                lemma_last_index_of(s@, '/');
            }
            slice_string(s, 0, i)
        },
    }
}

/// Splits the repository object off a repository path.
pub fn get_repo_prefix(repo_path: &str, repo_object: &str) -> (r: Option<String>)
    ensures
        match r {
            Some(p) => repo_prefix_spec(repo_path@, repo_object@) == Some(p@),
            None => repo_prefix_spec(repo_path@, repo_object@) is None,
        },
{
    let chars = to_chars(repo_path);
    let object = to_chars(repo_object);
    proof {
        lemma_last_index_of(repo_path@, '/');
    }
    let start: usize = match find_last(chars.as_slice(), '/') {
        None => 0,
        Some(i) => i + 1,
    };
    let last = vstd::slice::slice_subrange(chars.as_slice(), start, chars.len());
    if chars_eq(last, object.as_slice()) {
        Some(head_before_slash(repo_path, &chars))
    } else {
        None
    }
}

/// Where a listing searches and what it searches for, inside the archive
/// that the virtual prefix maps to: the key is the search prefix with every
/// leading repetition of the virtual prefix taken off, and the top is the
/// key's part before its last `/`. Both are empty where the search prefix
/// has fewer bytes than the virtual prefix.
pub open spec fn search_top_and_key_spec(search_prefix: &str, virtual_prefix: &str) -> (Seq<char>, Seq<char>) {
    if search_prefix.spec_bytes().len() < virtual_prefix.spec_bytes().len() {
        (Seq::empty(), Seq::empty())
    } else {
        let key = trim_start_all(search_prefix@, virtual_prefix@);
        (before_last_slash(key), key)
    }
}

/// Maps a search prefix into the archive behind a virtual prefix.
pub fn get_repo_search_top_and_key(search_prefix: &str, virtual_prefix: &str) -> (r: (String, String))
    ensures
        r.0@ == search_top_and_key_spec(search_prefix, virtual_prefix).0,
        r.1@ == search_top_and_key_spec(search_prefix, virtual_prefix).1,
{
    if search_prefix.as_bytes().len() < virtual_prefix.as_bytes().len() {
        return (String::new(), String::new());
    }
    let s = to_chars(search_prefix);
    let p = to_chars(virtual_prefix);
    let k = leading_repeats(s.as_slice(), p.as_slice());
    let key = slice_string(search_prefix, k, s.len());
    let key_chars = to_chars(key.as_str());
    let top = head_before_slash(key.as_str(), &key_chars);
    (top, key)
}

/// The rows whose names begin with `key`.
pub open spec fn named_with(key: Seq<char>) -> spec_fn((String, Stat)) -> bool {
    |row: (String, Stat)| starts_with_spec(row.0@, key)
}

/// The position of the first row named `name`; the number of rows where there is none.
pub open spec fn index_of_name(rows: Seq<(String, Stat)>, name: Seq<char>) -> int
    decreases rows.len(),
{
    if rows.len() == 0 {
        0
    } else if rows[0].0@ == name {
        0
    } else {
        1 + index_of_name(rows.drop_first(), name)
    }
}

/// The rows that follow the row named by a continuation token: all rows
/// without a token, and none where no row has the token's name.
pub open spec fn rows_after(rows: Seq<(String, Stat)>, last_end: Option<Seq<char>>) -> Seq<(String, Stat)> {
    match last_end {
        None => rows,
        Some(name) => {
            let i = index_of_name(rows, name);
            if i < rows.len() {
                rows.skip(i + 1)
            } else {
                Seq::empty()
            }
        },
    }
}

/// The rows that can still be listed: those after the continuation token
/// whose names begin with `key`.
pub open spec fn rows_left(rows: Seq<(String, Stat)>, key: Seq<char>, last_end: Option<Seq<char>>) -> Seq<
    (String, Stat),
> {
    rows_after(rows, last_end).filter(named_with(key))
}

/// One page of a listing: the first `max_count` of the rows left.
pub open spec fn page_spec(rows: Seq<(String, Stat)>, key: Seq<char>, max_count: usize, last_end: Option<Seq<char>>) -> Seq<
    (String, Stat),
> {
    let left = rows_left(rows, key, last_end);
    if left.len() <= max_count {
        left
    } else {
        left.take(max_count as int)
    }
}

/// The name that continues a listing after a page: that of the page's
/// last row, where rows are left over and the page holds any.
pub open spec fn next_token_spec(rows: Seq<(String, Stat)>, key: Seq<char>, max_count: usize, last_end: Option<Seq<char>>) -> Option<
    Seq<char>,
> {
    let left = rows_left(rows, key, last_end);
    if left.len() <= max_count || max_count == 0 {
        None
    } else {
        Some(left[max_count - 1].0@)
    }
}

fn find_name(rows: &Vec<(String, Stat)>, name: &[char]) -> (i: usize)
    ensures
        i == index_of_name(rows@, name@),
        i <= rows@.len(),
{
    let mut i: usize = 0;
    proof {
        assert(rows@.subrange(0, rows@.len() as int) =~= rows@);
    }
    while i < rows.len()
        invariant
            i <= rows.len(),
            index_of_name(rows@, name@) == i + index_of_name(
                rows@.subrange(i as int, rows@.len() as int),
                name@,
            ),
        decreases rows.len() - i,
    {
        let row_name = to_chars(rows[i].0.as_str());
        if chars_eq(row_name.as_slice(), name) {
            return i;
        }
        proof {
            assert(rows@.subrange(i as int, rows@.len() as int).drop_first() =~= rows@.subrange(
                i + 1,
                rows@.len() as int,
            ));
        }
        i += 1;
    }
    i
}

/// Cuts the rows of a walk down to one listing page and says where the
/// next page begins.
///
/// The rows up to and including the one named by the continuation token
/// `last_end` are dropped, then those whose names do not begin with
/// `filter_key`, then all beyond the first `max_count`. The result names
/// the page's last row where rows were left over.
pub fn filter_result(v: &mut Vec<(String, Stat)>, filter_key: &str, max_count: usize, last_end: Option<&str>) -> (r:
    Option<String>)
    ensures
        final(v)@ == page_spec(
            old(v)@,
            filter_key@,
            max_count,
            match last_end {
                Some(n) => Some(n@),
                None => None,
            },
        ),
        match r {
            Some(name) => next_token_spec(
                old(v)@,
                filter_key@,
                max_count,
                match last_end {
                    Some(n) => Some(n@),
                    None => None,
                },
            ) == Some(name@),
            None => next_token_spec(
                old(v)@,
                filter_key@,
                max_count,
                match last_end {
                    Some(n) => Some(n@),
                    None => None,
                },
            ) is None,
        },
{
    let ghost token = match last_end {
        Some(n) => Some(n@),
        None => None,
    };
    let ghost after = rows_after(old(v)@, token);
    let key = to_chars(filter_key);
    let start: usize = match last_end {
        None => 0,
        Some(name) => {
            let name_chars = to_chars(name);
            let i = find_name(v, name_chars.as_slice());
            if i < v.len() {
                i + 1
            } else {
                v.len()
            }
        },
    };
    proof {
        assert(after =~= v@.subrange(start as int, v@.len() as int));
    }
    let mut kept: Vec<(String, Stat)> = Vec::new();
    let mut i: usize = start;
    proof {
        reveal(Seq::filter);
        assert(v@.subrange(start as int, start as int).filter(named_with(filter_key@)) =~= Seq::<
            (String, Stat),
        >::empty());
    }
    while i < v.len()
        invariant
            start <= i <= v.len(),
            key@ == filter_key@,
            kept@ == v@.subrange(start as int, i as int).filter(named_with(filter_key@)),
        decreases v.len() - i,
    {
        let row_name = to_chars(v[i].0.as_str());
        proof {
            assert(v@.subrange(start as int, i + 1) =~= v@.subrange(start as int, i as int).push(
                v@[i as int],
            ));
            v@.subrange(start as int, i as int).lemma_filter_push(
                v@[i as int],
                named_with(filter_key@),
            );
        }
        if starts_with(row_name.as_slice(), key.as_slice()) {
            let st = v[i].1;
            kept.push((v[i].0.clone(), st));
        }
        i += 1;
    }
    let more = kept.len() > max_count;
    if more {
        kept.truncate(max_count);
    }
    let r = if more && max_count > 0 {
        Some(kept[max_count - 1].0.clone())
    } else {
        None
    };
    *v = kept;
    r
}

/// The host name template of the object-store front end for an endpoint and an account.
pub open spec fn uri_spec(endpoint: Seq<char>, account: Seq<char>) -> Seq<char> {
    endpoint + "-"@ + account + ".s3-object-lambda.{region}.amazonaws.com"@
}

/// Writes the host name template for an endpoint and an account.
pub fn make_uri(endpoint: &str, account: &str) -> (uri: String)
    ensures
        uri@ == uri_spec(endpoint@, account@),
{
    let mut uri = String::from_str(endpoint);
    uri.append("-");
    uri.append(account);
    uri.append(".s3-object-lambda.{region}.amazonaws.com");
    uri
}

/// The hole detection that suits a cache directory: by content under
/// `/mnt`, where the hole map cannot be asked, and by the hole map elsewhere.
pub fn hole_mode_for(cache_dir: &str) -> (m: HoleDetectMode)
    ensures
        m == if starts_with_spec(cache_dir@, "/mnt"@) {
            HoleDetectMode::ALLZERO
        } else {
            HoleDetectMode::LSEEK
        },
{
    let dir = to_chars(cache_dir);
    let mnt = to_chars("/mnt");
    if starts_with(dir.as_slice(), mnt.as_slice()) {
        HoleDetectMode::ALLZERO
    } else {
        HoleDetectMode::LSEEK
    }
}

/// The kind of request that an event carries.
#[derive(Copy, Clone, PartialEq, Eq, Debug, Structural)]
pub enum Route {
    GetObject,
    HeadObject,
    /// The first version of the listing, which is not served.
    ListObjects,
    ListObjectsV2,
}

/// Picks the handler for an event from the contexts it carries: the first
/// present of get, head, list and list-v2. An event without any has none.
pub fn function_handler(has_get: bool, has_head: bool, has_list: bool, has_list_v2: bool) -> (r: Option<
    Route,
>)
    ensures
        r == if has_get {
            Some(Route::GetObject)
        } else if has_head {
            Some(Route::HeadObject)
        } else if has_list {
            Some(Route::ListObjects)
        } else if has_list_v2 {
            Some(Route::ListObjectsV2)
        } else {
            None
        },
{
    if has_get {
        Some(Route::GetObject)
    } else if has_head {
        Some(Route::HeadObject)
    } else if has_list {
        Some(Route::ListObjects)
    } else if has_list_v2 {
        Some(Route::ListObjectsV2)
    } else {
        None
    }
}

/// Where the cache of one archive object lives.
#[derive(Debug)]
pub struct CachePaths {
    /// The key of the archive object: `prefix/object`.
    pub repo_key: String,
    /// The directory of the cache file: `cache_dir/bucket/prefix`.
    pub cachefiledir: String,
    /// The cache file: `cache_dir/bucket/prefix/object`.
    pub cachefile: String,
}

/// Names the archive object and its cache file.
pub fn cache_paths(cache_dir: &str, bucket: &str, prefix: &str, object: &str) -> (p: CachePaths)
    ensures
        p.repo_key@ == prefix@ + "/"@ + object@,
        p.cachefiledir@ == cache_dir@ + "/"@ + bucket@ + "/"@ + prefix@,
        p.cachefile@ == p.cachefiledir@ + "/"@ + object@,
{
    let mut repo_key = String::from_str(prefix);
    repo_key.append("/");
    repo_key.append(object);
    let mut cachefiledir = String::from_str(cache_dir);
    cachefiledir.append("/");
    cachefiledir.append(bucket);
    cachefiledir.append("/");
    cachefiledir.append(prefix);
    let mut cachefile = cachefiledir.clone();
    cachefile.append("/");
    cachefile.append(object);
    CachePaths { repo_key, cachefiledir, cachefile }
}

/// The path of a fresh file to extract into: a name of sixteen letters and
/// digits, drawn at random, in the extraction directory.
pub fn temp_extract_path() -> (path: String)
    ensures
        path@.len() == EXTRACT_TMP_DIR@.len() + 17,
        path@.subrange(0, EXTRACT_TMP_DIR@.len() as int) == EXTRACT_TMP_DIR@,
        path@[EXTRACT_TMP_DIR@.len() as int] == '/',
        forall|i: int|
            EXTRACT_TMP_DIR@.len() < i < path@.len() ==> is_alphanumeric(#[trigger] path@[i]),
{
    let name = random_alphanumeric(16);
    let mut path = String::from_str(EXTRACT_TMP_DIR);
    path.append("/");
    path.append(name.as_str());
    proof {
        reveal_strlit("/");
        let n = EXTRACT_TMP_DIR@.len() as int;
        assert(path@.subrange(0, n) =~= EXTRACT_TMP_DIR@);
        assert forall|i: int| n < i < path@.len() implies is_alphanumeric(
            #[trigger] path@[i],
        ) by {
            assert(path@[i] == name@[i - n - 1]);
        }
    }
    path
}

/// An error answer: a status with a code and a message.
#[derive(Debug)]
pub struct ErrorReply {
    pub status_code: i32,
    pub error_code: String,
    pub error_message: String,
}

impl ErrorReply {
    /// The answer for a key that no archive serves or that the archive does not hold.
    pub fn not_found() -> (r: ErrorReply)
        ensures
            r.status_code == 404,
            r.error_code@ == "NotFound"@,
            r.error_message@ == "ObjectNotFound"@,
    {
        ErrorReply {
            status_code: 404,
            error_code: String::from_str("NotFound"),
            error_message: String::from_str("ObjectNotFound"),
        }
    }

    /// The answer for a range that cannot be served.
    pub fn invalid_range() -> (r: ErrorReply)
        ensures
            r.status_code == 416,
            r.error_code@ == "InvalidRange"@,
            r.error_message@
                == "The requested range is not valid for the request. Try another range."@,
    {
        ErrorReply {
            status_code: 416,
            error_code: String::from_str("InvalidRange"),
            error_message: String::from_str(
                "The requested range is not valid for the request. Try another range.",
            ),
        }
    }

    /// The answer when the extracted file cannot be opened.
    pub fn internal_error() -> (r: ErrorReply)
        ensures
            r.status_code == 400,
            r.error_code@ == "InternalServerError"@,
            r.error_message@ == "Internal Server Error"@,
    {
        ErrorReply {
            status_code: 400,
            error_code: String::from_str("InternalServerError"),
            error_message: String::from_str("Internal Server Error"),
        }
    }
}

/// How the body of an object is sent.
#[derive(Debug)]
pub enum GetObjectPlan {
    /// The whole body, with status 200.
    Whole { content_length: u64 },
    /// `length` bytes from `offset` on, with status 206 and the given
    /// content-range header.
    Partial { offset: u64, length: u64, content_range: String },
    /// The requested range cannot be served: status 416.
    BadRange,
}

/// The content-range header for `length` bytes at `offset` of a body of `size` bytes.
pub open spec fn content_range_spec(offset: u64, length: u64, size: u64) -> Seq<char> {
    "bytes "@ + decimal(offset as nat) + "-"@ + decimal((offset + length - 1) as nat) + "/"@
        + decimal(size as nat)
}

/// How a body of `filesz` bytes is sent for ranges that any caller may
/// hand in: whole where the request has no range header; the range where
/// there is exactly one that holds a byte and lies within the body; and
/// not at all where the header was refused or the ranges are anything
/// else.
pub open spec fn get_object_plan_spec(parsed: Option<Option<Seq<(u64, u64)>>>, filesz: u64) -> Option<
    Option<(u64, u64)>,
> {
    match parsed {
        None => Some(None),
        Some(None) => None,
        Some(Some(ranges)) => if ranges.len() == 1 && ranges[0].1 >= 1 && ranges[0].0
            + ranges[0].1 <= filesz {
            Some(Some(ranges[0]))
        } else {
            None
        },
    }
}

/// `plan` is what `want` asks for.
pub open spec fn is_get_object_plan(plan: GetObjectPlan, want: Option<Option<(u64, u64)>>, filesz: u64) -> bool {
    match plan {
        GetObjectPlan::Whole { content_length } => want == Some(None::<(u64, u64)>)
            && content_length == filesz,
        GetObjectPlan::Partial { offset, length, content_range } => want == Some(
            Some((offset, length)),
        ) && content_range@ == content_range_spec(offset, length, filesz),
        GetObjectPlan::BadRange => want is None,
    }
}

/// Decides how a body of `filesz` bytes is sent, from the outcome of
/// parsing the request's range header. `parsed` is nothing where the
/// request has no range header, and holds nothing where the header was refused.
pub fn plan_get_object(parsed: Option<Option<Vec<(u64, u64)>>>, filesz: u64) -> (plan: GetObjectPlan)
    ensures
        is_get_object_plan(
            plan,
            get_object_plan_spec(
                match parsed {
                    Some(Some(v)) => Some(Some(v@)),
                    Some(None) => Some(None),
                    None => None,
                },
                filesz,
            ),
            filesz,
        ),
{
    match parsed {
        None => GetObjectPlan::Whole { content_length: filesz },
        Some(None) => GetObjectPlan::BadRange,
        Some(Some(ranges)) => {
            if ranges.len() != 1 {
                return GetObjectPlan::BadRange;
            }
            let offset = ranges[0].0;
            let length = ranges[0].1;
            if length < 1 || offset > filesz || length > filesz - offset {
                return GetObjectPlan::BadRange;
            }
            let mut content_range = String::from_str("bytes ");
            push_decimal(&mut content_range, offset);
            content_range.append("-");
            push_decimal(&mut content_range, offset + length - 1);
            content_range.append("/");
            push_decimal(&mut content_range, filesz);
            GetObjectPlan::Partial { offset, length, content_range }
        },
    }
}

/// How a body of `filesz` bytes is sent to a request, given what its
/// range header parses to for that body: whole where the request has no
/// such header; the range where the header parses to exactly one range
/// and the body is not empty; and not at all where the header is refused,
/// parses to no range or to several, or the body is empty.
pub open spec fn get_object_answer_spec(parsed: Option<Option<Seq<(u64, u64)>>>, filesz: u64) -> Option<
    Option<(u64, u64)>,
> {
    match parsed {
        None => Some(None),
        Some(None) => None,
        Some(Some(ranges)) => if ranges.len() == 1 && filesz > 0 {
            Some(Some(ranges[0]))
        } else {
            None
        },
    }
}

/// Decides how the body of an extracted object of `filesz` bytes is sent
/// for a request with the given range header, if it has one.
pub fn get_object_handler(filesz: u64, range: Option<&str>) -> (plan: GetObjectPlan)
    ensures
        is_get_object_plan(
            plan,
            get_object_answer_spec(
                match range {
                    Some(h) => Some(http_ranges_parsed(h@, filesz)),
                    None => None,
                },
                filesz,
            ),
            filesz,
        ),
{
    let parsed = match range {
        None => None,
        Some(h) => match http_range_parse(h, filesz) {
            Ok(ranges) => {
                proof {
                    if ranges@.len() == 1 {
                        assert(ranges@[0].0 + ranges@[0].1 <= filesz);
                    }
                }
                Some(Some(ranges))
            },
            Err(_) => Some(None),
        },
    };
    plan_get_object(parsed, filesz)
}

/// A size as the answers carry it: in 32 bits, the largest such number
/// standing for anything beyond it, and zero for anything below zero.
pub open spec fn size32_spec(size: i64) -> i32 {
    if size > i32::MAX {
        i32::MAX
    } else if size < 0 {
        0
    } else {
        size as i32
    }
}

/// Brings a size into the 32 bits that the answers carry.
pub fn size32(size: i64) -> (r: i32)
    ensures
        r == size32_spec(size),
{
    if size > i32::MAX as i64 {
        i32::MAX
    } else if size < 0 {
        0
    } else {
        size as i32
    }
}

/// The mode has the directory bit set.
pub open spec fn has_dir_bit(mode: u32) -> bool {
    mode & crate::inode::S_IFDIR > 0
}

/// The answer to a head request for the object whose status is `stat`:
/// status 200 with the object's size, and status 404 where there is no
/// object or the mode has the directory bit set.
pub fn head_object_handler(stat: Option<Stat>) -> (r: HeadObjectResponse)
    ensures
        match stat {
            Some(st) => if has_dir_bit(st.st_mode) {
                r.status_code == 404
            } else {
                r.status_code == 200
            },
            None => r.status_code == 404,
        },
        r.status_code == 200 ==> r.error_code is None && r.error_message is None && r.headers
            == Some(HeadObjectHeaders { content_length: size32_spec(stat->0.st_size) }),
        r.status_code == 404 ==> crate::codec::text_of(r.error_code) == Some("NotFound"@)
            && crate::codec::text_of(r.error_message) == Some("ObjectNotFound"@) && r.headers
            is None,
{
    match stat {
        Some(st) => {
            if st.st_mode & crate::inode::S_IFDIR > 0 {
                head_not_found()
            } else {
                HeadObjectResponse {
                    status_code: 200,
                    error_code: None,
                    error_message: None,
                    headers: Some(HeadObjectHeaders { content_length: size32(st.st_size) }),
                }
            }
        },
        None => head_not_found(),
    }
}

fn head_not_found() -> (r: HeadObjectResponse)
    ensures
        r.status_code == 404,
        crate::codec::text_of(r.error_code) == Some("NotFound"@),
        crate::codec::text_of(r.error_message) == Some("ObjectNotFound"@),
        r.headers is None,
{
    HeadObjectResponse {
        status_code: 404,
        error_code: Some(String::from_str("NotFound")),
        error_message: Some(String::from_str("ObjectNotFound")),
        headers: None,
    }
}

impl ListObjectsResponse {
    /// The answer to a listing of a prefix that no archive serves.
    pub fn not_found() -> (r: ListObjectsResponse)
        ensures
            r.status_code == 404,
            crate::codec::text_of(r.error_code) == Some("NotFound"@),
            crate::codec::text_of(r.error_message) == Some("Not Found"@),
            r.list_result_xml@.len() == 0,
    {
        ListObjectsResponse {
            status_code: 404,
            error_code: Some(String::from_str("NotFound")),
            error_message: Some(String::from_str("Not Found")),
            list_result_xml: String::new(),
        }
    }

    /// The answer to a listing of the first version, which is not served.
    pub fn not_supported() -> (r: ListObjectsResponse)
        ensures
            r.status_code == 400,
            crate::codec::text_of(r.error_code) == Some("NotSupport"@),
            crate::codec::text_of(r.error_message) == Some(
                "ListObjects not support on this endpoint, please use ListObjectsV2"@,
            ),
            r.list_result_xml@.len() == 0,
    {
        ListObjectsResponse {
            status_code: 400,
            error_code: Some(String::from_str("NotSupport")),
            error_message: Some(
                String::from_str(
                    "ListObjects not support on this endpoint, please use ListObjectsV2",
                ),
            ),
            list_result_xml: String::new(),
        }
    }

    /// The answer that carries a listing document: the document on one line.
    pub fn listed(xml: &str) -> (r: ListObjectsResponse)
        ensures
            r.status_code == 200,
            r.error_code is None,
            r.error_message is None,
            r.list_result_xml@ == xml@.filter(crate::text::other_than('\n')),
    {
        ListObjectsResponse {
            status_code: 200,
            error_code: None,
            error_message: None,
            list_result_xml: crate::text::remove_char(xml, '\n'),
        }
    }
}

/// What a listing request asks for.
#[derive(Debug)]
pub struct ListQuery {
    /// The key prefix to list.
    pub prefix: String,
    /// The name after which the listing continues, if it continues one.
    pub continue_token: Option<String>,
    /// The largest number of keys on the page.
    pub max_keys: usize,
}

/// The value of the last pair of a query string that is named `name`.
pub open spec fn query_value(pairs: Seq<(Seq<char>, Seq<char>)>, name: Seq<char>) -> Option<Seq<char>>
    decreases pairs.len(),
{
    if pairs.len() == 0 {
        None
    } else if pairs.last().0 == name {
        Some(pairs.last().1)
    } else {
        query_value(pairs.drop_last(), name)
    }
}

fn find_query_value<'a>(pairs: &'a Vec<(String, String)>, name: &str) -> (r: Option<&'a String>)
    ensures
        crate::codec::text_of(
            match r {
                Some(s) => Some(*s),
                None => None,
            },
        ) == query_value(crate::codec::pairs_of(pairs@), name@),
{
    let want = to_chars(name);
    let mut i: usize = pairs.len();
    let ghost all = crate::codec::pairs_of(pairs@);
    proof {
        assert(all.subrange(0, all.len() as int) =~= all);
    }
    while i > 0
        invariant
            i <= pairs.len(),
            want@ == name@,
            all == crate::codec::pairs_of(pairs@),
            query_value(all, name@) == query_value(all.subrange(0, i as int), name@),
        decreases i,
    {
        let here = to_chars(pairs[i - 1].0.as_str());
        proof {
            assert(all.subrange(0, i as int).last() == all[i - 1]);
            assert(all.subrange(0, i as int).drop_last() =~= all.subrange(0, i - 1));
        }
        if chars_eq(here.as_slice(), want.as_slice()) {
            return Some(&pairs[i - 1].1);
        }
        i -= 1;
    }
    None
}

/// The name that a decoded continuation token holds: the text that the
/// bytes encode in UTF-8, if they encode one.
pub open spec fn token_name_spec(decoded: Option<Seq<u8>>) -> Option<Seq<char>> {
    match decoded {
        Some(bytes) => if vstd::utf8::valid_utf8(bytes) {
            Some(vstd::utf8::decode_utf8(bytes))
        } else {
            None
        },
        None => None,
    }
}

/// Reads the name out of a decoded continuation token.
pub fn token_name(decoded: Option<Vec<u8>>) -> (r: Option<String>)
    ensures
        crate::codec::text_of(r) == token_name_spec(
            match decoded {
                Some(b) => Some(b@),
                None => None,
            },
        ),
{
    match decoded {
        None => None,
        Some(bytes) => match crate::codec::string_from_utf8(bytes) {
            Ok(s) => Some(s),
            Err(_) => None,
        },
    }
}

/// The page size that a request asks for: the number under `max-keys`
/// where it is one, and a thousand otherwise.
pub open spec fn max_keys_spec(value: Option<Seq<char>>) -> usize {
    match value {
        Some(t) => match crate::text::parse_usize_spec(t) {
            Some(n) => n,
            None => DEFAULT_MAX_KEYS,
        },
        None => DEFAULT_MAX_KEYS,
    }
}

/// Reads a listing request off the pairs of its query string.
///
/// The request must name a `prefix`. Its `continuation-token`, where
/// present, is base64 of the name to continue after; one that does not
/// decode to a text counts as absent.
pub fn list_query(pairs: &Vec<(String, String)>) -> (r: Option<ListQuery>)
    ensures
        ({
            let q = crate::codec::pairs_of(pairs@);
            match r {
                Some(query) => {
                    &&& query_value(q, "prefix"@) == Some(query.prefix@)
                    &&& crate::codec::text_of(query.continue_token) == (match query_value(
                        q,
                        "continuation-token"@,
                    ) {
                        Some(t) => token_name_spec(crate::codec::base64_decoded(t)),
                        None => None,
                    })
                    &&& query.max_keys == max_keys_spec(query_value(q, "max-keys"@))
                },
                None => query_value(q, "prefix"@) is None,
            }
        }),
{
    let prefix = match find_query_value(pairs, "prefix") {
        None => {
            return None;
        },
        Some(p) => p.clone(),
    };
    let continue_token = match find_query_value(pairs, "continuation-token") {
        None => None,
        Some(t) => match crate::codec::base64_decode(t.as_str()) {
            Ok(bytes) => token_name(Some(bytes)),
            Err(_) => token_name(None),
        },
    };
    let max_keys = match find_query_value(pairs, "max-keys") {
        None => DEFAULT_MAX_KEYS,
        Some(t) => match crate::text::parse_usize(t.as_str()) {
            Some(n) => n,
            None => DEFAULT_MAX_KEYS,
        },
    };
    Some(ListQuery { prefix, continue_token, max_keys })
}

/// A count as the answers carry it: in 32 bits, the largest such number
/// standing for anything beyond it.
pub open spec fn count32_spec(n: usize) -> i32 {
    if n > i32::MAX {
        i32::MAX
    } else {
        n as i32
    }
}

fn count32(n: usize) -> (r: i32)
    ensures
        r == count32_spec(n),
{
    if n > i32::MAX as usize {
        i32::MAX
    } else {
        n as i32
    }
}

/// `object` is the listed form of a row named `name` with status `stat`
/// under the virtual prefix: the key is the prefix followed by the name,
/// the modification time is written out where it can be, the size is the
/// row's, and nothing else is set.
pub open spec fn is_listed_object(object: Object, virtual_prefix: Seq<char>, name: Seq<char>, stat: Stat) -> bool {
    &&& object.key@ == virtual_prefix + name
    &&& crate::codec::text_of(object.last_modified) == crate::codec::datetime_formatted(
        stat.st_mtime,
    )
    &&& object.size == size32_spec(stat.st_size)
    &&& object.etag is None
    &&& object.checksum_algorighm is None
    &&& object.owner is None
    &&& object.storage_class is None
}

/// The listed form of one row, given the written-out modification time.
pub fn listed_object(virtual_prefix: &str, name: &str, stat: &Stat, last_modified: Option<String>) -> (object:
    Object)
    ensures
        object.key@ == virtual_prefix@ + name@,
        object.last_modified == last_modified,
        object.size == size32_spec(stat.st_size),
        object.etag is None,
        object.checksum_algorighm is None,
        object.owner is None,
        object.storage_class is None,
{
    let mut key = String::from_str(virtual_prefix);
    key.append(name);
    Object {
        key,
        last_modified,
        etag: None,
        checksum_algorighm: None,
        size: size32(stat.st_size),
        owner: None,
        storage_class: None,
    }
}

/// The listing document for one page.
///
/// `rows` are the rows of the page and `last_end` the name that continues
/// the listing, as `filter_result` leaves them. The document names the
/// bucket, counts the rows, lists each row under the virtual prefix, and
/// is marked truncated, with the base64 of the name as its continuation
/// token, where the listing continues.
pub fn list_objects_v2_handler(
    bucket: &str,
    virtual_prefix: &str,
    rows: &Vec<(String, Stat)>,
    max_keys: usize,
    last_end: Option<&str>,
) -> (doc: ListResultXml)
    ensures
        doc.list_result.name@ == bucket@,
        doc.list_result.key_count == count32_spec(rows@.len() as usize),
        doc.list_result.max_keys == count32_spec(max_keys),
        doc.list_result.is_truncated == (last_end is Some),
        crate::codec::text_of(doc.list_result.continuation_token) == (match last_end {
            Some(t) => Some(crate::codec::base64_encoded(t.spec_bytes())),
            None => None,
        }),
        doc.list_result.contents matches Some(contents) && contents@.len() == rows@.len()
            && forall|i: int|
            0 <= i < rows@.len() ==> is_listed_object(
                #[trigger] contents@[i],
                virtual_prefix@,
                rows@[i].0@,
                rows@[i].1,
            ),
        doc.list_result.prefix is None,
        doc.list_result.start_after is None,
        doc.list_result.next_continuation_token is None,
        doc.list_result.delimiter is None,
        doc.list_result.encoding_type is None,
        doc.list_result.common_prefixes is None,
{
    let mut contents: Vec<Object> = Vec::new();
    let mut i: usize = 0;
    while i < rows.len()
        invariant
            i <= rows.len(),
            contents@.len() == i,
            forall|j: int|
                0 <= j < i ==> is_listed_object(
                    #[trigger] contents@[j],
                    virtual_prefix@,
                    rows@[j].0@,
                    rows@[j].1,
                ),
        decreases rows.len() - i,
    {
        let st = rows[i].1;
        let last_modified = match crate::codec::format_datetime(st.st_mtime) {
            Ok(text) => Some(text),
            Err(_) => None,
        };
        let object = listed_object(virtual_prefix, rows[i].0.as_str(), &st, last_modified);
        contents.push(object);
        i += 1;
    }
    let continuation_token = match last_end {
        Some(t) => Some(crate::codec::base64_encode(t.as_bytes())),
        None => None,
    };
    ListResultXml {
        list_result: ListBucketResult {
            name: String::from_str(bucket),
            prefix: None,
            start_after: None,
            continuation_token,
            next_continuation_token: None,
            key_count: count32(rows.len()),
            max_keys: count32(max_keys),
            delimiter: None,
            encoding_type: None,
            is_truncated: last_end.is_some(),
            contents: Some(contents),
            common_prefixes: None,
        },
    }
}

/// The file that an extraction of `filepath` writes in `localdir`: the
/// directory, a `/`, and the last component of the path.
pub open spec fn extract_target_spec(filepath: Seq<char>, localdir: Seq<char>) -> Seq<char> {
    localdir + "/"@ + after_last_slash(filepath)
}

/// Names the file that an extraction of `filepath` writes in `localdir`.
pub fn extract_target(filepath: &str, localdir: &str) -> (path: String)
    ensures
        path@ == extract_target_spec(filepath@, localdir@),
{
    let chars = to_chars(filepath);
    proof {
        lemma_last_index_of(filepath@, '/');
    }
    let start: usize = match find_last(chars.as_slice(), '/') {
        None => 0,
        Some(i) => i + 1,
    };
    let mut path = String::from_str(localdir);
    path.append("/");
    path.append(filepath.substring_char(start, chars.len()));
    path
}

/// `s` without its leading slashes.
pub open spec fn without_leading_slashes(s: Seq<char>) -> Seq<char> {
    s.subrange(crate::text::leading_count(s, '/'), s.len() as int)
}

/// The key that a request asks for, given what its URL parses to: the
/// URL's path without its leading slashes. A text that is no URL asks for
/// nothing.
pub open spec fn request_key_spec(parsed: Option<crate::codec::UrlView>) -> Option<Seq<char>> {
    match parsed {
        Some(parts) => Some(without_leading_slashes(parts.2)),
        None => None,
    }
}

/// Reads the requested key off a parsed request URL.
pub fn key_of(parsed: Option<&crate::codec::UrlParts>) -> (r: Option<String>)
    ensures
        crate::codec::text_of(r) == request_key_spec(
            match parsed {
                Some(p) => Some(p@),
                None => None,
            },
        ),
{
    match parsed {
        None => None,
        Some(parts) => {
            let path = to_chars(parts.path.as_str());
            proof {
                assert(path@.subrange(0, path@.len() as int) =~= path@);
            }
            let k = crate::text::count_leading(path.as_slice(), 0, '/');
            Some(slice_string(parts.path.as_str(), k, path.len()))
        },
    }
}

/// The key that the request with the URL `input_url` asks for.
pub fn request_key(input_url: &str) -> (r: Option<String>)
    ensures
        crate::codec::text_of(r) == request_key_spec(crate::codec::url_parsed(input_url@)),
{
    match crate::codec::url_parse(input_url) {
        Ok(parts) => key_of(Some(&parts)),
        Err(_) => key_of(None),
    }
}

/// The listing that the request with the URL `input_url` asks for: what
/// the pairs of the URL's query string say. There is none where the text
/// is no URL or the query names no prefix.
pub fn list_request(input_url: &str) -> (r: Option<ListQuery>)
    ensures
        match crate::codec::url_parsed(input_url@) {
            None => r is None,
            Some(parts) => match r {
                Some(query) => {
                    &&& query_value(parts.3, "prefix"@) == Some(query.prefix@)
                    &&& crate::codec::text_of(query.continue_token) == (match query_value(
                        parts.3,
                        "continuation-token"@,
                    ) {
                        Some(t) => token_name_spec(crate::codec::base64_decoded(t)),
                        None => None,
                    })
                    &&& query.max_keys == max_keys_spec(query_value(parts.3, "max-keys"@))
                },
                None => query_value(parts.3, "prefix"@) is None,
            },
        },
{
    match crate::codec::url_parse(input_url) {
        Ok(parts) => list_query(&parts.query),
        Err(_) => None,
    }
}

} // verus!
