//! The map from virtual key prefixes to the archives that serve them.

use crate::codec::{pairs_of, url_parse, url_parsed, UrlParts, UrlView};
use crate::lambda::{after_last_slash, before_last_slash};
use crate::text::{
    chars_eq, count_leading, decimal, find_last, last_index_of, leading_count, lemma_last_index_of,
    lemma_lex_irreflexive, lemma_lex_total, lemma_lex_transitive, lex_less, lex_lt, lines, lines_spec, push_decimal,
    slice_string, starts_with, starts_with_spec, texts_of, to_chars,
};
use vstd::prelude::*;
use vstd::string::StringExecFns;

verus! {

/// The number of numbered environment variables that can hold a mapping.
pub const MAX_ENV_PREFIX_VMAP: usize = 20;

/// The mapping that a line holds: the text before its one `|`, without
/// leading slashes, as the virtual prefix, and the text after it as the
/// target. A line with no `|` or with more than one holds none.
pub open spec fn parse_pair_spec(line: Seq<char>) -> Option<(Seq<char>, Seq<char>)> {
    let i = last_index_of(line, '|');
    if i < 0 || last_index_of(line.subrange(0, i), '|') >= 0 {
        None
    } else {
        let left = line.subrange(0, i);
        Some(
            (
                left.subrange(leading_count(left, '/'), left.len() as int),
                line.subrange(i + 1, line.len() as int),
            ),
        )
    }
}

/// Reads the mapping that a line holds.
pub fn parse_pair(line: &str) -> (r: Option<(String, String)>)
    ensures
        match r {
            Some(pair) => parse_pair_spec(line@) == Some((pair.0@, pair.1@)),
            None => parse_pair_spec(line@) is None,
        },
{
    let chars = to_chars(line);
    proof {
        lemma_last_index_of(line@, '|');
    }
    match find_last(chars.as_slice(), '|') {
        None => None,
        Some(i) => {
            let left = vstd::slice::slice_subrange(chars.as_slice(), 0, i);
            match find_last(left, '|') {
                Some(_) => None,
                None => {
                    proof {
                        assert(left@.subrange(0, left@.len() as int) =~= left@);
                    }
                    let k = count_leading(left, 0, '/');
                    let key = slice_string(line, k, i);
                    let value = slice_string(line, i + 1, chars.len());
                    proof {
                        assert(left@.subrange(k as int, left@.len() as int) =~= line@.subrange(
                            k as int,
                            i as int,
                        ));
                    }
                    Some((key, value))
                },
            }
        },
    }
}

/// The mappings after `key` is mapped to `value`: the pair stands at its
/// place in the order of the keys, in place of the pair that had the key
/// before, if one had.
pub open spec fn insert_spec(pairs: Seq<(Seq<char>, Seq<char>)>, key: Seq<char>, value: Seq<char>) -> Seq<
    (Seq<char>, Seq<char>),
>
    decreases pairs.len(),
{
    if pairs.len() == 0 {
        seq![(key, value)]
    } else if lex_lt(key, pairs[0].0) {
        seq![(key, value)] + pairs
    } else if key == pairs[0].0 {
        seq![(key, value)] + pairs.drop_first()
    } else {
        seq![pairs[0]] + insert_spec(pairs.drop_first(), key, value)
    }
}

/// The mappings stand in the strict order of their virtual prefixes, so
/// that no prefix occurs twice.
pub open spec fn ordered(pairs: Seq<(Seq<char>, Seq<char>)>) -> bool {
    forall|i: int, j: int| 0 <= i < j < pairs.len() ==> lex_lt(pairs[i].0, pairs[j].0)
}

/// In ordered mappings no virtual prefix occurs twice.
pub proof fn lemma_ordered_keys_differ(pairs: Seq<(Seq<char>, Seq<char>)>, i: int, j: int)
    requires
        ordered(pairs),
        0 <= i < j < pairs.len(),
    ensures
        pairs[i].0 != pairs[j].0,
{
    lemma_lex_irreflexive(pairs[i].0);
}

/// Mapping a key keeps the mappings in order; the key then leads to the
/// new target, and every other key leads where it led before.
pub proof fn lemma_insert_keeps_order(pairs: Seq<(Seq<char>, Seq<char>)>, key: Seq<char>, value: Seq<char>)
    requires
        ordered(pairs),
    ensures
        ordered(insert_spec(pairs, key, value)),
        insert_spec(pairs, key, value).contains((key, value)),
        forall|i: int|
            0 <= i < pairs.len() && pairs[i].0 != key ==> insert_spec(pairs, key, value).contains(
                #[trigger] pairs[i],
            ),
        forall|i: int|
            0 <= i < insert_spec(pairs, key, value).len() ==> (#[trigger] insert_spec(
                pairs,
                key,
                value,
            )[i]) == (key, value) || pairs.contains(insert_spec(pairs, key, value)[i]),
    decreases pairs.len(),
{
    let r = insert_spec(pairs, key, value);
    if pairs.len() == 0 {
        assert(r[0] == (key, value));
    } else if lex_lt(key, pairs[0].0) {
        assert(r[0] == (key, value));
        assert forall|i: int, j: int| 0 <= i < j < r.len() implies lex_lt(r[i].0, r[j].0) by {
            if i == 0 {
                if j > 1 {
                    lemma_lex_transitive(key, pairs[0].0, pairs[j - 1].0);
                }
            } else {
                assert(r[i] == pairs[i - 1] && r[j] == pairs[j - 1]);
            }
        }
        assert forall|i: int| 0 <= i < pairs.len() && pairs[i].0 != key implies r.contains(
            #[trigger] pairs[i],
        ) by {
            assert(r[i + 1] == pairs[i]);
        }
        assert forall|i: int| 0 <= i < r.len() implies (#[trigger] r[i]) == (key, value)
            || pairs.contains(r[i]) by {
            if i > 0 {
                assert(r[i] == pairs[i - 1]);
            }
        }
    } else if key == pairs[0].0 {
        assert(r[0] == (key, value));
        assert forall|i: int, j: int| 0 <= i < j < r.len() implies lex_lt(r[i].0, r[j].0) by {
            assert(r[j] == pairs[j]);
            if i > 0 {
                assert(r[i] == pairs[i]);
            }
        }
        assert forall|i: int| 0 <= i < pairs.len() && pairs[i].0 != key implies r.contains(
            #[trigger] pairs[i],
        ) by {
            assert(r[i] == pairs[i]);
        }
        assert forall|i: int| 0 <= i < r.len() implies (#[trigger] r[i]) == (key, value)
            || pairs.contains(r[i]) by {
            if i > 0 {
                assert(r[i] == pairs[i]);
            }
        }
    } else {
        let rest = pairs.drop_first();
        let inner = insert_spec(rest, key, value);
        assert(ordered(rest)) by {
            assert forall|i: int, j: int| 0 <= i < j < rest.len() implies lex_lt(
                rest[i].0,
                rest[j].0,
            ) by {
                assert(rest[i] == pairs[i + 1] && rest[j] == pairs[j + 1]);
            }
        }
        lemma_insert_keeps_order(rest, key, value);
        lemma_lex_total(key, pairs[0].0);
        assert(r[0] == pairs[0]);
        assert forall|i: int| 0 <= i < inner.len() implies r[i + 1] == inner[i] by {}
        assert forall|i: int, j: int| 0 <= i < j < r.len() implies lex_lt(r[i].0, r[j].0) by {
            assert(r[j] == inner[j - 1]);
            if i == 0 {
                if inner[j - 1] != (key, value) {
                    assert(rest.contains(inner[j - 1]));
                    let m = choose|m: int| 0 <= m < rest.len() && rest[m] == inner[j - 1];
                    assert(rest[m] == pairs[m + 1]);
                }
            } else {
                assert(r[i] == inner[i - 1]);
            }
        }
        assert(r.contains((key, value))) by {
            let m = choose|m: int| 0 <= m < inner.len() && inner[m] == (key, value);
            assert(r[m + 1] == (key, value));
        }
        assert forall|i: int| 0 <= i < pairs.len() && pairs[i].0 != key implies r.contains(
            #[trigger] pairs[i],
        ) by {
            if i == 0 {
                assert(r[0] == pairs[0]);
            } else {
                assert(rest[i - 1] == pairs[i]);
                assert(inner.contains(rest[i - 1]));
                let m = choose|m: int| 0 <= m < inner.len() && inner[m] == rest[i - 1];
                assert(r[m + 1] == pairs[i]);
            }
        }
        assert forall|i: int| 0 <= i < r.len() implies (#[trigger] r[i]) == (key, value)
            || pairs.contains(r[i]) by {
            if i == 0 {
                assert(pairs[0] == r[0]);
            } else {
                assert(r[i] == inner[i - 1]);
                if inner[i - 1] != (key, value) {
                    assert(rest.contains(inner[i - 1]));
                    let m = choose|m: int| 0 <= m < rest.len() && rest[m] == inner[i - 1];
                    assert(pairs[m + 1] == r[i]);
                }
            }
        }
    }
}

/// Taking in lines keeps the mappings in order.
pub proof fn lemma_load_keeps_order(pairs: Seq<(Seq<char>, Seq<char>)>, lines: Seq<Seq<char>>)
    requires
        ordered(pairs),
    ensures
        ordered(load_spec(pairs, lines)),
    decreases lines.len(),
{
    if lines.len() > 0 {
        let next = match parse_pair_spec(lines[0]) {
            Some(pair) => insert_spec(pairs, pair.0, pair.1),
            None => pairs,
        };
        if let Some(pair) = parse_pair_spec(lines[0]) {
            lemma_insert_keeps_order(pairs, pair.0, pair.1);
        }
        lemma_load_keeps_order(next, lines.drop_first());
    }
}

/// The mappings after each of `lines` that holds a mapping is taken in, in order.
pub open spec fn load_spec(pairs: Seq<(Seq<char>, Seq<char>)>, lines: Seq<Seq<char>>) -> Seq<
    (Seq<char>, Seq<char>),
>
    decreases lines.len(),
{
    if lines.len() == 0 {
        pairs
    } else {
        let next = match parse_pair_spec(lines[0]) {
            Some(pair) => insert_spec(pairs, pair.0, pair.1),
            None => pairs,
        };
        load_spec(next, lines.drop_first())
    }
}

/// The values of the numbered variables that are read: those before the
/// first variable that is not set, and no more than twenty.
pub open spec fn env_lines_spec(env: Seq<Option<String>>) -> Seq<Seq<char>>
    decreases env.len(),
{
    if env.len() == 0 || env.len() > MAX_ENV_PREFIX_VMAP {
        if env.len() == 0 {
            Seq::empty()
        } else {
            env_lines_spec(env.drop_last())
        }
    } else {
        let before = env_lines_spec(env.drop_last());
        if before.len() == env.len() - 1 && env.last() is Some {
            before.push(env.last()->0@)
        } else {
            before
        }
    }
}

/// A virtual prefix `key` can serve the request key `query`: one of the
/// two begins with the other.
pub open spec fn serves(key: Seq<char>, query: Seq<char>) -> bool {
    starts_with_spec(key, query) || starts_with_spec(query, key)
}

/// The position of the last mapping whose virtual prefix can serve
/// `query`; -1 where none can.
pub open spec fn last_serving(pairs: Seq<(Seq<char>, Seq<char>)>, query: Seq<char>) -> int
    decreases pairs.len(),
{
    if pairs.len() == 0 {
        -1
    } else if serves(pairs.last().0, query) {
        pairs.len() - 1
    } else {
        last_serving(pairs.drop_last(), query)
    }
}

/// Where the virtual prefix `key` leads when its target parses to
/// `parsed`: the virtual prefix, the bucket, the key prefix of the archive
/// object and the object's name. It leads nowhere unless the target is an
/// `s3` URL with a host whose path, without leading slashes, ends in a
/// name that is not empty.
pub open spec fn target_spec(key: Seq<char>, parsed: Option<UrlView>) -> Option<
    (Seq<char>, Seq<char>, Seq<char>, Seq<char>),
> {
    match parsed {
        None => None,
        Some(parts) => if parts.0 != "s3"@ && parts.0 != "S3"@ {
            None
        } else {
            match parts.1 {
                None => None,
                Some(bucket) => {
                    let object_key = parts.2.subrange(
                        leading_count(parts.2, '/'),
                        parts.2.len() as int,
                    );
                    if after_last_slash(object_key).len() == 0 {
                        None
                    } else {
                        Some(
                            (
                                key,
                                bucket,
                                before_last_slash(object_key),
                                after_last_slash(object_key),
                            ),
                        )
                    }
                },
            }
        },
    }
}

/// `r` is the target `want`, each string taken by its view.
pub open spec fn is_target(
    r: Option<(String, String, String, String)>,
    want: Option<(Seq<char>, Seq<char>, Seq<char>, Seq<char>)>,
) -> bool {
    match r {
        Some(t) => want == Some((t.0@, t.1@, t.2@, t.3@)),
        None => want is None,
    }
}

/// Works out where a virtual prefix leads from its parsed target.
pub fn resolve_target(key: &str, parsed: Option<&UrlParts>) -> (r: Option<
    (String, String, String, String),
>)
    ensures
        is_target(
            r,
            target_spec(
                key@,
                match parsed {
                    Some(p) => Some(p@),
                    None => None,
                },
            ),
        ),
{
    let parts = match parsed {
        None => {
            return None;
        },
        Some(p) => p,
    };
    if !crate::text::str_eq(parts.scheme.as_str(), "s3") && !crate::text::str_eq(
        parts.scheme.as_str(),
        "S3",
    ) {
        return None;
    }
    let bucket = match &parts.host {
        None => {
            return None;
        },
        Some(h) => h,
    };
    let path = to_chars(parts.path.as_str());
    proof {
        assert(path@.subrange(0, path@.len() as int) =~= path@);
    }
    let k = count_leading(path.as_slice(), 0, '/');
    let object_key = vstd::slice::slice_subrange(path.as_slice(), k, path.len());
    proof {
        lemma_last_index_of(object_key@, '/');
    }
    let (cut, start): (usize, usize) = match find_last(object_key, '/') {
        None => (0, 0),
        Some(i) => (i, i + 1),
    };
    if start >= object_key.len() {
        return None;
    }
    let prefix = slice_string(parts.path.as_str(), k, k + cut);
    let object = slice_string(parts.path.as_str(), k + start, path.len());
    proof {
        assert(object_key@.subrange(0, cut as int) =~= parts.path@.subrange(k as int, k + cut));
        assert(object_key@.subrange(start as int, object_key@.len() as int)
            =~= parts.path@.subrange(k + start, path@.len() as int));
        if last_index_of(object_key@, '/') < 0 {
            assert(parts.path@.subrange(k as int, k as int) =~= Seq::<char>::empty());
        }
    }
    Some((String::from_str(key), bucket.clone(), prefix, object))
}

/// The name of the `i`-th numbered environment variable.
pub open spec fn env_name_spec(i: usize) -> Seq<char> {
    "S3ARCHIVEFS_PREFIX_VMAP"@ + decimal(i as nat)
}

/// The name of the environment variable that names a file of mappings.
pub const ENV_EXT_FILE: &'static str = "S3ARCHIVEFS_PREFIX_VMAP_EXT_FILE";

/// Writes the name of the `i`-th numbered environment variable.
pub fn env_name(i: usize) -> (s: String)
    ensures
        s@ == env_name_spec(i),
{
    let mut s = String::from_str("S3ARCHIVEFS_PREFIX_VMAP");
    push_decimal(&mut s, i as u64);
    s
}

/// The mappings from virtual prefixes to archive targets, in the order of
/// the prefixes.
#[derive(Debug)]
pub struct PrefixVMap {
    entries: Vec<(String, String)>,
}

impl PrefixVMap {
    /// The mappings, in the order of their virtual prefixes.
    pub closed spec fn pairs(self) -> Seq<(Seq<char>, Seq<char>)> {
        pairs_of(self.entries@)
    }

    fn insert(&mut self, key: String, value: String)
        ensures
            final(self).pairs() == insert_spec(old(self).pairs(), key@, value@),
    {
        let k = to_chars(key.as_str());
        let mut i: usize = 0;
        let ghost all = self.pairs();
        proof {
            assert(all.subrange(0, 0) =~= Seq::<(Seq<char>, Seq<char>)>::empty());
            assert(all.subrange(0, all.len() as int) =~= all);
            assert(Seq::<(Seq<char>, Seq<char>)>::empty() + insert_spec(all, key@, value@)
                =~= insert_spec(all, key@, value@));
        }
        while i < self.entries.len()
            invariant
                i <= self.entries.len(),
                k@ == key@,
                self.pairs() == all,
                all == old(self).pairs(),
                insert_spec(all, key@, value@) == all.subrange(0, i as int) + insert_spec(
                    all.subrange(i as int, all.len() as int),
                    key@,
                    value@,
                ),
            decreases self.entries.len() - i,
        {
            let ghost rest = all.subrange(i as int, all.len() as int);
            let here = to_chars(self.entries[i].0.as_str());
            proof {
                assert(rest[0] == all[i as int]);
                assert(rest.drop_first() =~= all.subrange(i + 1, all.len() as int));
            }
            if lex_less(k.as_slice(), here.as_slice()) {
                self.entries.insert(i, (key, value));
                proof {
                    assert(self.pairs() =~= all.subrange(0, i as int) + (seq![(key@, value@)]
                        + rest));
                }
                return ;
            }
            if chars_eq(k.as_slice(), here.as_slice()) {
                self.entries.set(i, (key, value));
                proof {
                    assert(self.pairs() =~= all.subrange(0, i as int) + (seq![(key@, value@)]
                        + rest.drop_first()));
                }
                return ;
            }
            proof {
                assert(all.subrange(0, i + 1) =~= all.subrange(0, i as int) + seq![rest[0]]);
                assert(all.subrange(0, i as int) + (seq![rest[0]] + insert_spec(
                    rest.drop_first(),
                    key@,
                    value@,
                )) =~= all.subrange(0, i + 1) + insert_spec(rest.drop_first(), key@, value@));
            }
            i += 1;
        }
        self.entries.push((key, value));
        proof {
            assert(all.subrange(all.len() as int, all.len() as int) =~= Seq::<
                (Seq<char>, Seq<char>),
            >::empty());
            assert(self.pairs() =~= all + seq![(key@, value@)]);
        }
    }

    fn load(&mut self, lines: &Vec<String>)
        ensures
            final(self).pairs() == load_spec(old(self).pairs(), texts_of(lines@)),
    {
        let mut i: usize = 0;
        proof {
            assert(texts_of(lines@).subrange(0, lines@.len() as int) =~= texts_of(lines@));
        }
        while i < lines.len()
            invariant
                i <= lines.len(),
                load_spec(old(self).pairs(), texts_of(lines@)) == load_spec(
                    self.pairs(),
                    texts_of(lines@).subrange(i as int, lines@.len() as int),
                ),
            decreases lines.len() - i,
        {
            let ghost rest = texts_of(lines@).subrange(i as int, lines@.len() as int);
            proof {
                assert(rest[0] == lines@[i as int]@);
                assert(rest.drop_first() =~= texts_of(lines@).subrange(
                    i + 1,
                    lines@.len() as int,
                ));
            }
            match parse_pair(lines[i].as_str()) {
                Some(pair) => {
                    self.insert(pair.0, pair.1);
                },
                None => {},
            }
            i += 1;
        }
    }

    /// Builds the map from the values of the numbered environment
    /// variables, first to last, and then from the lines of the mappings
    /// file, if there is one.
    ///
    /// The variables are read up to the first that is not set. Each value
    /// and each line gives one mapping, `virtual prefix|target`; any that
    /// does not have this form is passed over. A later mapping of a
    /// virtual prefix takes the place of an earlier one.
    pub fn new(env: &Vec<Option<String>>, ext_text: Option<&str>) -> (m: PrefixVMap)
        ensures
            m.pairs() == load_spec(
                load_spec(Seq::empty(), env_lines_spec(env@)),
                match ext_text {
                    Some(t) => lines_spec(t@),
                    None => Seq::empty(),
                },
            ),
            ordered(m.pairs()),
    {
        proof {
            let first = load_spec(Seq::empty(), env_lines_spec(env@));
            lemma_load_keeps_order(Seq::empty(), env_lines_spec(env@));
            lemma_load_keeps_order(
                first,
                match ext_text {
                    Some(t) => lines_spec(t@),
                    None => Seq::empty(),
                },
            );
        }
        let mut m = PrefixVMap { entries: Vec::new() };
        proof {
            assert(m.pairs() =~= Seq::<(Seq<char>, Seq<char>)>::empty());
        }
        let mut values: Vec<String> = Vec::new();
        let mut i: usize = 0;
        let mut open = true;
        proof {
            assert(env@.subrange(0, 0) =~= Seq::<Option<String>>::empty());
            assert(texts_of(values@) =~= Seq::<Seq<char>>::empty());
        }
        while i < env.len()
            invariant
                i <= env.len(),
                texts_of(values@) == env_lines_spec(env@.subrange(0, i as int)),
                open == (values@.len() == i && i <= MAX_ENV_PREFIX_VMAP),
                values@.len() <= i,
            decreases env.len() - i,
        {
            let ghost before = texts_of(values@);
            proof {
                assert(env@.subrange(0, i + 1).drop_last() =~= env@.subrange(0, i as int));
                assert(env@.subrange(0, i + 1).last() == env@[i as int]);
            }
            if open && i < MAX_ENV_PREFIX_VMAP {
                match &env[i] {
                    Some(v) => {
                        values.push(v.clone());
                        proof {
                            assert(texts_of(values@) =~= before.push(env@[i as int]->0@));
                        }
                    },
                    None => {
                        open = false;
                    },
                }
            } else {
                open = false;
            }
            i += 1;
        }
        proof {
            assert(env@.subrange(0, env@.len() as int) =~= env@);
        }
        m.load(&values);
        match ext_text {
            Some(t) => {
                let ls = lines(t);
                m.load(&ls);
            },
            None => {
                proof {
                    assert(texts_of(Seq::<String>::empty()) =~= Seq::<Seq<char>>::empty());
                }
                let none: Vec<String> = Vec::new();
                m.load(&none);
            },
        }
        m
    }

    /// The number of mappings.
    pub fn len(&self) -> (n: usize)
        ensures
            n == self.pairs().len(),
    {
        self.entries.len()
    }

    fn find(&self, prefix: &[char]) -> (r: Option<usize>)
        ensures
            match r {
                Some(i) => last_serving(self.pairs(), prefix@) == i && i < self.pairs().len(),
                None => last_serving(self.pairs(), prefix@) == -1,
            },
    {
        let mut i: usize = self.entries.len();
        let ghost all = self.pairs();
        proof {
            assert(all.subrange(0, all.len() as int) =~= all);
        }
        while i > 0
            invariant
                i <= self.entries.len(),
                all == self.pairs(),
                last_serving(all, prefix@) == last_serving(all.subrange(0, i as int), prefix@),
            decreases i,
        {
            let key = to_chars(self.entries[i - 1].0.as_str());
            proof {
                assert(all.subrange(0, i as int).last() == all[i - 1]);
                assert(all.subrange(0, i as int).drop_last() =~= all.subrange(0, i - 1));
            }
            if starts_with(key.as_slice(), prefix) || starts_with(prefix, key.as_slice()) {
                return Some(i - 1);
            }
            i -= 1;
        }
        None
    }

    /// Finds where a request key leads: the virtual prefix that serves it,
    /// the bucket, the key prefix of the archive object and the object's
    /// name.
    ///
    /// Of the virtual prefixes that can serve the key, the last in their
    /// order is taken. There is no answer where none can serve it, or
    /// where the target of the one taken is no `s3` URL of an object.
    pub fn query(&self, prefix: &str) -> (r: Option<(String, String, String, String)>)
        ensures
            ({
                let i = last_serving(self.pairs(), prefix@);
                if i < 0 {
                    r is None
                } else {
                    is_target(r, target_spec(self.pairs()[i].0, url_parsed(self.pairs()[i].1)))
                }
            }),
    {
        let q = to_chars(prefix);
        match self.find(q.as_slice()) {
            None => None,
            Some(i) => {
                let key = self.entries[i].0.as_str();
                match url_parse(self.entries[i].1.as_str()) {
                    Ok(parts) => resolve_target(key, Some(&parts)),
                    Err(_) => resolve_target(key, None),
                }
            },
        }
    }
}

} // verus!
