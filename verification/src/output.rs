//! The answers that the object-store front end hands back.

use vstd::prelude::*;

verus! {

/// The result of a listing, as the object store's XML schema names it.
#[derive(Debug)]
pub struct ListBucketResult {
    pub name: String,
    pub prefix: Option<String>,
    pub start_after: Option<String>,
    pub continuation_token: Option<String>,
    pub next_continuation_token: Option<String>,
    pub key_count: i32,
    pub max_keys: i32,
    pub delimiter: Option<String>,
    pub encoding_type: Option<String>,
    pub is_truncated: bool,
    pub contents: Option<Vec<Object>>,
    pub common_prefixes: Option<Vec<CommonPrefixes>>,
}

/// One listed object.
#[derive(Debug)]
pub struct Object {
    pub key: String,
    pub last_modified: Option<String>,
    pub etag: Option<String>,
    pub checksum_algorighm: Option<String>,
    pub size: i32,
    pub owner: Option<Owner>,
    pub storage_class: Option<String>,
}

/// The owner of a listed object.
#[derive(Debug)]
pub struct Owner {
    pub display_name: String,
    pub id: String,
}

/// A group of keys that share a prefix.
#[derive(Debug)]
pub struct CommonPrefixes {
    pub prefix: String,
}

/// The root of the listing document.
#[derive(Debug)]
pub struct ListResultXml {
    pub list_result: ListBucketResult,
}

/// The answer to a listing request.
#[derive(Debug)]
pub struct ListObjectsResponse {
    pub status_code: i32,
    pub error_code: Option<String>,
    pub error_message: Option<String>,
    pub list_result_xml: String,
}

/// The headers of the answer to a head request.
#[derive(Copy, Clone, PartialEq, Eq, Debug, Structural)]
pub struct HeadObjectHeaders {
    pub content_length: i32,
}

/// The answer to a head request.
#[derive(Debug)]
pub struct HeadObjectResponse {
    pub status_code: i32,
    pub error_code: Option<String>,
    pub error_message: Option<String>,
    pub headers: Option<HeadObjectHeaders>,
}

} // verus!
