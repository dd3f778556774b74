use aws_smithy_types::date_time::Format;
use aws_smithy_types::DateTime;
use s3archivefs::hole::HoleDetectMode;
use s3archivefs::lambda::{
    cache_paths, extract_target, filter_result, function_handler, get_object_handler, get_repo_prefix,
    get_repo_search_top_and_key, head_object_handler, hole_mode_for, list_objects_v2_handler,
    list_query, list_request, listed_object, make_uri, plan_get_object, request_key, size32,
    temp_extract_path, token_name,
    ErrorReply, GetObjectPlan, Route, DEFAULT_MAX_KEYS, EXTRACT_TMP_DIR,
};
use s3archivefs::output::{
    CommonPrefixes, HeadObjectHeaders, ListBucketResult, ListObjectsResponse, ListResultXml,
    Object, Owner,
};
use s3archivefs::stat::Stat;
use s3archivefs::text::{lines, parse_usize, remove_char, str_eq};
use s3archivefs::vmap::{env_name, parse_pair, resolve_target, PrefixVMap, ENV_EXT_FILE};
use std::time::SystemTime;

fn st(mode: u32, size: i64, mtime: i64) -> Stat {
    Stat {
        st_ino: 1,
        st_mode: mode,
        st_nlink: 1,
        st_uid: 0,
        st_gid: 0,
        st_rdev: 0,
        st_size: size,
        st_blksize: 4096,
        st_blocks: 0,
        st_atime: mtime,
        st_mtime: mtime,
        st_ctime: mtime,
    }
}

#[test]
fn test_ser_de() {
    let mut contents = Vec::new();
    let obj = Object {
        key: "output.sqsh".to_string(),
        last_modified: Some(DateTime::from(SystemTime::now()).fmt(Format::DateTime).unwrap()),
        etag: Some("e0f28a5fb7b5a9462dad1811b91cf495-23".to_string()),
        size: 185786368,
        checksum_algorighm: None,
        owner: None,
        storage_class: None,
    };
    contents.push(obj);
    let obj = Object {
        key: "index/repo/aha.sqsh".to_string(),
        last_modified: Some(DateTime::from(SystemTime::now()).fmt(Format::DateTime).unwrap()),
        etag: Some("7f07d92fe5d6ab7e6373023ce405cb50-12".to_string()),
        size: 185786368,
        checksum_algorighm: None,
        owner: None,
        storage_class: None,
    };
    contents.push(obj);
    let result = ListBucketResult {
        name: "aha30".to_string(),
        key_count: 2,
        max_keys: 1000,
        is_truncated: false,
        contents: Some(contents),
        common_prefixes: None,
        continuation_token: None,
        delimiter: None,
        encoding_type: None,
        next_continuation_token: None,
        prefix: None,
        start_after: None,
    };

    println!("{:?}", result);
}

fn sample_map() -> PrefixVMap {
    let env = vec![
        Some("virtual/prefix2|s3://ahabucket/prefix2/object.name".to_string()),
        Some("/|s3://ahabucket/root/object.name".to_string()),
        Some("/virtual/prefix1|s3://ahabucket/prefix1/object.name".to_string()),
        Some("/prefix3/subprefix3|s3://ahabucket/prefix3/object.name".to_string()),
        Some("/prefix4/subprefix4/prefix|s3://ahabucket/prefix4/object.name".to_string()),
    ];
    PrefixVMap::new(&env, None)
}

fn target(a: &str, b: &str, c: &str, d: &str) -> Option<(String, String, String, String)> {
    Some((a.to_string(), b.to_string(), c.to_string(), d.to_string()))
}

#[test]
fn test_vmap() {
    let vmap = sample_map();

    println!("query virtual/prefix ->");
    println!("  {:?}", vmap.query("virtual/prefix"));
    assert_eq!(
        vmap.query("virtual/prefix"),
        target("virtual/prefix2", "ahabucket", "prefix2", "object.name")
    );

    println!("query virtual/prefix10 ->");
    println!("  {:?}", vmap.query("virtual/prefix10"));
    assert_eq!(
        vmap.query("virtual/prefix10"),
        target("virtual/prefix1", "ahabucket", "prefix1", "object.name")
    );

    println!("query vir ->");
    println!("  {:?}", vmap.query("vir"));
    assert_eq!(vmap.query("vir"), target("virtual/prefix2", "ahabucket", "prefix2", "object.name"));

    println!("query prefix6/ ->");
    println!("  {:?}", vmap.query("prefix6/"));
    assert_eq!(vmap.query("prefix6/"), target("", "ahabucket", "root", "object.name"));

    println!("query prefix5 ->");
    println!("  {:?}", vmap.query("prefix5"));
    assert_eq!(vmap.query("prefix5"), target("", "ahabucket", "root", "object.name"));
}

#[test]
fn map_reads_variables_up_to_the_first_gap() {
    let env = vec![
        Some("a|s3://b/one/x".to_string()),
        Some("no separator".to_string()),
        Some("c|s3://b/three/x".to_string()),
        None,
        Some("d|s3://b/four/x".to_string()),
    ];
    let m = PrefixVMap::new(&env, None);
    assert_eq!(m.len(), 2);
    assert_eq!(m.query("a/k"), target("a", "b", "one", "x"));
    assert_eq!(m.query("c/k"), target("c", "b", "three", "x"));
    assert_eq!(m.query("d/k"), None);
    let many: Vec<Option<String>> =
        (0..25).map(|i| Some(format!("p{:02}|s3://b/{}/x", i, i))).collect();
    assert_eq!(PrefixVMap::new(&many, None).len(), 20);
    assert_eq!(PrefixVMap::new(&Vec::new(), None).len(), 0);
    assert_eq!(PrefixVMap::new(&Vec::new(), None).query("x"), None);
    assert_eq!(env_name(1), "S3ARCHIVEFS_PREFIX_VMAP1");
    assert_eq!(env_name(20), "S3ARCHIVEFS_PREFIX_VMAP20");
    assert_eq!(ENV_EXT_FILE, "S3ARCHIVEFS_PREFIX_VMAP_EXT_FILE");
}

#[test]
fn map_reads_the_mappings_file_and_later_wins() {
    let env = vec![Some("a|s3://b/env/x".to_string())];
    let text = "a|s3://b/file/x\r\nbroken line\n//z/y|s3://b2/deep/er/obj\n\nq|w|e\nlast|s3://b/l/x";
    let m = PrefixVMap::new(&env, Some(text));
    assert_eq!(m.len(), 3);
    assert_eq!(m.query("a"), target("a", "b", "file", "x"));
    assert_eq!(m.query("z/y/k"), target("z/y", "b2", "deep/er", "obj"));
    assert_eq!(m.query("last"), target("last", "b", "l", "x"));
    assert_eq!(m.query("q"), None);
}

#[test]
fn map_targets_must_be_objects_in_buckets() {
    let env = vec![
        Some("http|http://host/p/o".to_string()),
        Some("nohost|s3:///p/o".to_string()),
        Some("dir|s3://b/p/".to_string()),
        Some("bare|s3://b".to_string()),
        Some("top|s3://b/o".to_string()),
        Some("junk|not a url".to_string()),
        Some("upper|S3://B/p/o".to_string()),
    ];
    let m = PrefixVMap::new(&env, None);
    assert_eq!(m.query("http"), None);
    assert_eq!(m.query("nohost"), None);
    assert_eq!(m.query("dir"), None);
    assert_eq!(m.query("bare"), None);
    assert_eq!(m.query("top"), target("top", "b", "", "o"));
    assert_eq!(m.query("junk"), None);
    assert_eq!(m.query("upper"), target("upper", "B", "p", "o"));
    assert_eq!(resolve_target("k", None), None);
}

#[test]
fn pairs_have_exactly_one_separator() {
    assert_eq!(parse_pair("a|b"), Some(("a".to_string(), "b".to_string())));
    assert_eq!(parse_pair("///a/b|s3://x"), Some(("a/b".to_string(), "s3://x".to_string())));
    assert_eq!(parse_pair("/|v"), Some(("".to_string(), "v".to_string())));
    assert_eq!(parse_pair("|"), Some(("".to_string(), "".to_string())));
    assert_eq!(parse_pair("a|"), Some(("a".to_string(), "".to_string())));
    assert_eq!(parse_pair("ab"), None);
    assert_eq!(parse_pair(""), None);
    assert_eq!(parse_pair("a|b|c"), None);
    assert_eq!(parse_pair("||"), None);
}

#[test]
fn text_helpers() {
    assert_eq!(lines("a\nb\r\nc"), vec!["a", "b", "c"]);
    assert_eq!(lines("a\n"), vec!["a"]);
    assert_eq!(lines("\n\nx\r"), vec!["", "", "x\r"]);
    assert_eq!(lines(""), Vec::<String>::new());
    assert_eq!(lines("é|ü\nñ"), vec!["é|ü", "ñ"]);
    assert_eq!(remove_char("<a>\n <b/>\n</a>\n", '\n'), "<a> <b/></a>");
    assert_eq!(remove_char("", '\n'), "");
    assert_eq!(remove_char("\n\n", '\n'), "");
    assert!(str_eq("abc", "abc") && !str_eq("abc", "abd") && !str_eq("ab", "abc"));
    assert_eq!(parse_usize("0"), Some(0));
    assert_eq!(parse_usize("1000"), Some(1000));
    assert_eq!(parse_usize("+17"), Some(17));
    assert_eq!(parse_usize("007"), Some(7));
    assert_eq!(parse_usize(""), None);
    assert_eq!(parse_usize("+"), None);
    assert_eq!(parse_usize("-1"), None);
    assert_eq!(parse_usize("12a"), None);
    assert_eq!(parse_usize(" 12"), None);
    assert_eq!(parse_usize("18446744073709551615"), "18446744073709551615".parse::<usize>().ok());
    assert_eq!(parse_usize("18446744073709551616"), None);
    assert_eq!(parse_usize("99999999999999999999999"), None);
}

#[test]
fn repo_prefix_and_search_key() {
    assert_eq!(get_repo_prefix("a/b/c.sqsh", "c.sqsh"), Some("a/b".to_string()));
    assert_eq!(get_repo_prefix("c.sqsh", "c.sqsh"), Some("".to_string()));
    assert_eq!(get_repo_prefix("/c.sqsh", "c.sqsh"), Some("".to_string()));
    assert_eq!(get_repo_prefix("a/b/", ""), Some("a/b".to_string()));
    assert_eq!(get_repo_prefix("a/b/c.sqsh", "d"), None);
    assert_eq!(get_repo_prefix("a/b/c.sqsh", "b/c.sqsh"), None);
    assert_eq!(get_repo_prefix("", ""), Some("".to_string()));
    let pair = |a: &str, b: &str| (a.to_string(), b.to_string());
    assert_eq!(
        get_repo_search_top_and_key("virtual/prefix/dir/file", "virtual/prefix/"),
        pair("dir", "dir/file")
    );
    assert_eq!(get_repo_search_top_and_key("vp/a/b/c", "vp/"), pair("a/b", "a/b/c"));
    assert_eq!(get_repo_search_top_and_key("vp/file", "vp/"), pair("", "file"));
    assert_eq!(get_repo_search_top_and_key("vp", "vp/longer"), pair("", ""));
    assert_eq!(get_repo_search_top_and_key("ababab/x", "ab"), pair("", "/x"));
    assert_eq!(get_repo_search_top_and_key("other/x/y", "vp"), pair("other/x", "other/x/y"));
    assert_eq!(get_repo_search_top_and_key("a/b", ""), pair("a", "a/b"));
    assert_eq!(get_repo_search_top_and_key("", ""), pair("", ""));
    assert_eq!(make_uri("ep", "123"), "ep-123.s3-object-lambda.{region}.amazonaws.com");
    assert_eq!(extract_target("dir/sub/file.bin", "/tmp"), "/tmp/file.bin");
    assert_eq!(extract_target("file.bin", "/out"), "/out/file.bin");
    assert_eq!(extract_target("dir/", "/out"), "/out/");
    assert_eq!(extract_target("", ""), "/");
}

fn walk() -> Vec<(String, Stat)> {
    ["a/1", "a/2", "b/1", "a/3", "a/4"]
        .iter()
        .enumerate()
        .map(|(i, n)| (n.to_string(), st(0o100644, i as i64, 0)))
        .collect()
}

fn names(v: &Vec<(String, Stat)>) -> Vec<&str> {
    v.iter().map(|r| r.0.as_str()).collect()
}

#[test]
fn listing_pages() {
    let mut v = walk();
    assert_eq!(filter_result(&mut v, "a/", 2, None), Some("a/2".to_string()));
    assert_eq!(names(&v), vec!["a/1", "a/2"]);
    assert_eq!(v[1].1.st_size, 1);
    let mut v = walk();
    assert_eq!(filter_result(&mut v, "a/", 2, Some("a/2")), None);
    assert_eq!(names(&v), vec!["a/3", "a/4"]);
    let mut v = walk();
    assert_eq!(filter_result(&mut v, "a/", 1, Some("a/2")), Some("a/3".to_string()));
    assert_eq!(names(&v), vec!["a/3"]);
    let mut v = walk();
    assert_eq!(filter_result(&mut v, "", 1000, None), None);
    assert_eq!(names(&v), vec!["a/1", "a/2", "b/1", "a/3", "a/4"]);
    let mut v = walk();
    assert_eq!(filter_result(&mut v, "a/", 4, None), None);
    assert_eq!(names(&v), vec!["a/1", "a/2", "a/3", "a/4"]);
    let mut v = walk();
    assert_eq!(filter_result(&mut v, "a/", 1000, Some("missing")), None);
    assert_eq!(v.len(), 0);
    let mut v = walk();
    assert_eq!(filter_result(&mut v, "c/", 10, None), None);
    assert_eq!(v.len(), 0);
    let mut v = walk();
    assert_eq!(filter_result(&mut v, "a/", 0, None), None);
    assert_eq!(v.len(), 0);
    let mut v = walk();
    assert_eq!(filter_result(&mut v, "a/", 10, Some("a/4")), None);
    assert_eq!(v.len(), 0);
    let mut v: Vec<(String, Stat)> = Vec::new();
    assert_eq!(filter_result(&mut v, "a/", 10, None), None);
}

#[test]
fn request_routing_and_modes() {
    assert_eq!(function_handler(true, true, true, true), Some(Route::GetObject));
    assert_eq!(function_handler(false, true, true, true), Some(Route::HeadObject));
    assert_eq!(function_handler(false, false, true, true), Some(Route::ListObjects));
    assert_eq!(function_handler(false, false, false, true), Some(Route::ListObjectsV2));
    assert_eq!(function_handler(false, false, false, false), None);
    assert_eq!(hole_mode_for("/mnt/efs/cache"), HoleDetectMode::ALLZERO);
    assert_eq!(hole_mode_for("/mnt"), HoleDetectMode::ALLZERO);
    assert_eq!(hole_mode_for("/tmp"), HoleDetectMode::LSEEK);
    assert_eq!(hole_mode_for("/mn"), HoleDetectMode::LSEEK);
    assert_eq!(hole_mode_for(""), HoleDetectMode::LSEEK);
    let p = cache_paths("/tmp", "bucket", "pre/fix", "obj.sqsh");
    assert_eq!(p.repo_key, "pre/fix/obj.sqsh");
    assert_eq!(p.cachefiledir, "/tmp/bucket/pre/fix");
    assert_eq!(p.cachefile, "/tmp/bucket/pre/fix/obj.sqsh");
}

#[test]
fn temp_paths_are_fresh_names() {
    let a = temp_extract_path();
    let b = temp_extract_path();
    assert_eq!(EXTRACT_TMP_DIR, "/tmp/s3archivefs_temp_files");
    assert!(a.starts_with("/tmp/s3archivefs_temp_files/"));
    assert_eq!(a.len(), EXTRACT_TMP_DIR.len() + 17);
    assert!(a[EXTRACT_TMP_DIR.len() + 1..].chars().all(|c| c.is_ascii_alphanumeric()));
    assert_ne!(a, b);
}

#[test]
fn error_replies() {
    let r = ErrorReply::not_found();
    assert_eq!((r.status_code, r.error_code.as_str(), r.error_message.as_str()),
        (404, "NotFound", "ObjectNotFound"));
    let r = ErrorReply::invalid_range();
    assert_eq!(r.status_code, 416);
    assert_eq!(r.error_code, "InvalidRange");
    assert_eq!(
        r.error_message,
        "The requested range is not valid for the request. Try another range."
    );
    let r = ErrorReply::internal_error();
    assert_eq!((r.status_code, r.error_code.as_str(), r.error_message.as_str()),
        (400, "InternalServerError", "Internal Server Error"));
}

fn partial(plan: GetObjectPlan) -> Option<(u64, u64, String)> {
    match plan {
        GetObjectPlan::Partial { offset, length, content_range } => {
            Some((offset, length, content_range))
        }
        _ => None,
    }
}

#[test]
fn get_object_ranges() {
    assert!(matches!(get_object_handler(1000, None), GetObjectPlan::Whole { content_length: 1000 }));
    assert_eq!(
        partial(get_object_handler(1000, Some("bytes=0-9"))),
        Some((0, 10, "bytes 0-9/1000".to_string()))
    );
    assert_eq!(
        partial(get_object_handler(1000, Some("bytes=990-"))),
        Some((990, 10, "bytes 990-999/1000".to_string()))
    );
    assert_eq!(
        partial(get_object_handler(1000, Some("bytes=-5"))),
        Some((995, 5, "bytes 995-999/1000".to_string()))
    );
    assert_eq!(
        partial(get_object_handler(1000, Some("bytes=500-5000"))),
        Some((500, 500, "bytes 500-999/1000".to_string()))
    );
    assert!(matches!(get_object_handler(1000, Some("bytes=0-1,5-6")), GetObjectPlan::BadRange));
    assert!(matches!(get_object_handler(1000, Some("lines=0-1")), GetObjectPlan::BadRange));
    assert!(matches!(get_object_handler(1000, Some("bytes=5-2")), GetObjectPlan::BadRange));
    assert!(matches!(get_object_handler(1000, Some("bytes=1000-")), GetObjectPlan::BadRange));
    assert!(matches!(get_object_handler(1000, Some("")), GetObjectPlan::BadRange));
    assert!(matches!(get_object_handler(1000, Some("bytes=")), GetObjectPlan::BadRange));
    assert!(matches!(get_object_handler(0, Some("bytes=-5")), GetObjectPlan::BadRange));
    assert!(matches!(plan_get_object(None, 7), GetObjectPlan::Whole { content_length: 7 }));
    assert!(matches!(plan_get_object(Some(None), 7), GetObjectPlan::BadRange));
    assert!(matches!(plan_get_object(Some(Some(vec![])), 7), GetObjectPlan::BadRange));
    assert!(matches!(plan_get_object(Some(Some(vec![(0, 0)])), 7), GetObjectPlan::BadRange));
    assert!(matches!(plan_get_object(Some(Some(vec![(3, 5)])), 7), GetObjectPlan::BadRange));
    assert!(matches!(plan_get_object(Some(Some(vec![(8, 1)])), 7), GetObjectPlan::BadRange));
    assert!(matches!(
        plan_get_object(Some(Some(vec![(u64::MAX, u64::MAX)])), u64::MAX),
        GetObjectPlan::BadRange
    ));
    assert_eq!(
        partial(plan_get_object(Some(Some(vec![(3, 4)])), 7)),
        Some((3, 4, "bytes 3-6/7".to_string()))
    );
}

#[test]
fn head_object_answers() {
    let r = head_object_handler(Some(st(0o100644, 12345, 0)));
    assert_eq!(r.status_code, 200);
    assert_eq!(r.error_code, None);
    assert_eq!(r.error_message, None);
    assert_eq!(r.headers, Some(HeadObjectHeaders { content_length: 12345 }));
    let r = head_object_handler(Some(st(0o040755, 50, 0)));
    assert_eq!(r.status_code, 404);
    assert_eq!(r.error_code, Some("NotFound".to_string()));
    assert_eq!(r.error_message, Some("ObjectNotFound".to_string()));
    assert_eq!(r.headers, None);
    let r = head_object_handler(None);
    assert_eq!((r.status_code, r.headers), (404, None));
    let r = head_object_handler(Some(st(0o120777, 9, 0)));
    assert_eq!(r.status_code, 200);
    let r = head_object_handler(Some(st(0o060644, 9, 0)));
    assert_eq!(r.status_code, 404);
    let r = head_object_handler(Some(st(0o100644, 5_000_000_000, 0)));
    assert_eq!(r.headers, Some(HeadObjectHeaders { content_length: i32::MAX }));
    assert_eq!(size32(-1), 0);
    assert_eq!(size32(i32::MAX as i64), i32::MAX);
    assert_eq!(size32(i32::MAX as i64 + 1), i32::MAX);
}

fn q(pairs: &[(&str, &str)]) -> Vec<(String, String)> {
    pairs.iter().map(|(a, b)| (a.to_string(), b.to_string())).collect()
}

#[test]
fn listing_requests() {
    let r = list_query(&q(&[("list-type", "2"), ("prefix", "vp/dir/")])).unwrap();
    assert_eq!((r.prefix.as_str(), r.continue_token, r.max_keys), ("vp/dir/", None, 1000));
    assert_eq!(DEFAULT_MAX_KEYS, 1000);
    let r = list_query(&q(&[
        ("prefix", "first"),
        ("max-keys", "25"),
        ("continuation-token", "YS8y"),
        ("prefix", "second"),
    ]))
    .unwrap();
    assert_eq!(r.prefix, "second");
    assert_eq!(r.continue_token, Some("a/2".to_string()));
    assert_eq!(r.max_keys, 25);
    let r = list_query(&q(&[("prefix", ""), ("max-keys", "many"), ("continuation-token", "%%")]))
        .unwrap();
    assert_eq!((r.prefix.as_str(), r.continue_token, r.max_keys), ("", None, 1000));
    let r = list_query(&q(&[("prefix", "p"), ("continuation-token", "/w==")])).unwrap();
    assert_eq!(r.continue_token, None);
    assert!(list_query(&q(&[("max-keys", "5")])).is_none());
    assert!(list_query(&Vec::new()).is_none());
    assert_eq!(token_name(Some(b"a/2".to_vec())), Some("a/2".to_string()));
    assert_eq!(token_name(Some(vec![0xff])), None);
    assert_eq!(token_name(Some(Vec::new())), Some("".to_string()));
    assert_eq!(token_name(None), None);
}

#[test]
fn listing_document() {
    let rows = vec![
        ("dir/a.txt".to_string(), st(0o100644, 10, 0)),
        ("dir/b.bin".to_string(), st(0o100644, 5_000_000_000, 1_576_540_098)),
    ];
    let doc = list_objects_v2_handler("bucket", "vp/", &rows, 2, Some("dir/b.bin"));
    let r = doc.list_result;
    assert_eq!(r.name, "bucket");
    assert_eq!((r.key_count, r.max_keys, r.is_truncated), (2, 2, true));
    assert_eq!(r.continuation_token, Some("ZGlyL2IuYmlu".to_string()));
    let contents = r.contents.unwrap();
    assert_eq!(contents.len(), 2);
    assert_eq!(contents[0].key, "vp/dir/a.txt");
    assert_eq!(contents[0].last_modified, Some("1970-01-01T00:00:00Z".to_string()));
    assert_eq!(contents[0].size, 10);
    assert_eq!(contents[1].key, "vp/dir/b.bin");
    assert_eq!(contents[1].last_modified, Some("2019-12-16T23:48:18Z".to_string()));
    assert_eq!(contents[1].size, i32::MAX);
    assert!(contents[1].etag.is_none() && contents[1].owner.is_none());
    assert!(contents[1].checksum_algorighm.is_none() && contents[1].storage_class.is_none());
    assert!(r.prefix.is_none() && r.start_after.is_none() && r.delimiter.is_none());
    assert!(r.next_continuation_token.is_none() && r.encoding_type.is_none());
    assert!(r.common_prefixes.is_none());
    let doc = list_objects_v2_handler("b", "", &Vec::new(), 1000, None);
    assert_eq!(doc.list_result.key_count, 0);
    assert_eq!(doc.list_result.max_keys, 1000);
    assert!(!doc.list_result.is_truncated);
    assert_eq!(doc.list_result.continuation_token, None);
    assert_eq!(doc.list_result.contents.map(|c| c.len()), Some(0));
    let far = vec![("x".to_string(), st(0o100644, 1, i64::MAX))];
    let doc = list_objects_v2_handler("b", "", &far, 1, None);
    assert_eq!(doc.list_result.contents.unwrap()[0].last_modified, None);
    let o = listed_object("vp/", "n", &st(0o100644, 3, 0), Some("then".to_string()));
    assert_eq!((o.key.as_str(), o.size, o.last_modified), ("vp/n", 3, Some("then".to_string())));
}

#[test]
fn listing_answers() {
    let r = ListObjectsResponse::not_found();
    assert_eq!(r.status_code, 404);
    assert_eq!(r.error_code, Some("NotFound".to_string()));
    assert_eq!(r.error_message, Some("Not Found".to_string()));
    assert_eq!(r.list_result_xml, "");
    let r = ListObjectsResponse::not_supported();
    assert_eq!(r.status_code, 400);
    assert_eq!(r.error_code, Some("NotSupport".to_string()));
    assert_eq!(
        r.error_message,
        Some("ListObjects not support on this endpoint, please use ListObjectsV2".to_string())
    );
    let r = ListObjectsResponse::listed("<ListBucketResult>\n  <Name>b</Name>\n</ListBucketResult>");
    assert_eq!(r.status_code, 200);
    assert_eq!(r.list_result_xml, "<ListBucketResult>  <Name>b</Name></ListBucketResult>");
    assert!(r.error_code.is_none() && r.error_message.is_none());
    let wrapped = ListResultXml {
        list_result: ListBucketResult {
            name: "b".to_string(),
            prefix: None,
            start_after: None,
            continuation_token: None,
            next_continuation_token: None,
            key_count: 0,
            max_keys: 0,
            delimiter: None,
            encoding_type: None,
            is_truncated: false,
            contents: None,
            common_prefixes: Some(vec![CommonPrefixes { prefix: "p/".to_string() }]),
        },
    };
    assert_eq!(wrapped.list_result.common_prefixes.unwrap()[0].prefix, "p/");
    let owner = Owner { display_name: "me".to_string(), id: "1".to_string() };
    assert_eq!(owner.display_name, "me");
}

#[test]
fn requests_are_read_off_their_urls() {
    assert_eq!(
        request_key("https://ap-123.s3-accesspoint.eu-west-1.amazonaws.com/vp/dir/a%20b.txt"),
        Some("vp/dir/a%20b.txt".to_string())
    );
    assert_eq!(request_key("https://host//double/slash"), Some("double/slash".to_string()));
    assert_eq!(request_key("https://host"), Some("".to_string()));
    assert_eq!(request_key("not a url"), None);
    let r = list_request(
        "https://host/?list-type=2&prefix=vp%2Fdir%2F&max-keys=7&continuation-token=YS8y",
    )
    .unwrap();
    assert_eq!(r.prefix, "vp/dir/");
    assert_eq!(r.max_keys, 7);
    assert_eq!(r.continue_token, Some("a/2".to_string()));
    assert!(list_request("https://host/?list-type=2").is_none());
    assert!(list_request("::").is_none());
}
