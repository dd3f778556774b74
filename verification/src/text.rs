//! Text helpers: strings as sequences of characters.

use vstd::prelude::*;
use vstd::string::{StrSliceExecFns, StringExecFns};

verus! {

/// The characters of a string, in a vector.
pub fn to_chars(s: &str) -> (v: Vec<char>)
    ensures
        v@ == s@,
{
    broadcast use vstd::string::group_string_axioms;

    let mut v: Vec<char> = Vec::new();
    for c in it: s.chars()
        invariant
            it.seq() == s@,
            v@ == s@.subrange(0, it.index() as int),
    {
        v.push(c);
        proof {
            assert(v@ =~= s@.subrange(0, it.index() + 1));
        }
    }
    proof {
        assert(s@.subrange(0, s@.len() as int) =~= s@);
    }
    v
}

/// The character that writes the decimal digit `d`.
pub open spec fn digit_char(d: int) -> char {
    if d == 0 {
        '0'
    } else if d == 1 {
        '1'
    } else if d == 2 {
        '2'
    } else if d == 3 {
        '3'
    } else if d == 4 {
        '4'
    } else if d == 5 {
        '5'
    } else if d == 6 {
        '6'
    } else if d == 7 {
        '7'
    } else if d == 8 {
        '8'
    } else {
        '9'
    }
}

/// The decimal numeral of `n`, without sign or leading zeros.
pub open spec fn decimal(n: nat) -> Seq<char>
    decreases n,
{
    if n < 10 {
        seq![digit_char(n as int)]
    } else {
        decimal(n / 10).push(digit_char((n % 10) as int))
    }
}

fn digit_str(d: u64) -> (s: &'static str)
    requires
        d < 10,
    ensures
        s@ == seq![digit_char(d as int)],
{
    proof {
        reveal_strlit("0");
        reveal_strlit("1");
        reveal_strlit("2");
        reveal_strlit("3");
        reveal_strlit("4");
        reveal_strlit("5");
        reveal_strlit("6");
        reveal_strlit("7");
        reveal_strlit("8");
        reveal_strlit("9");
    }
    let s = if d == 0 {
        "0"
    } else if d == 1 {
        "1"
    } else if d == 2 {
        "2"
    } else if d == 3 {
        "3"
    } else if d == 4 {
        "4"
    } else if d == 5 {
        "5"
    } else if d == 6 {
        "6"
    } else if d == 7 {
        "7"
    } else if d == 8 {
        "8"
    } else {
        "9"
    };
    proof {
        assert(s@ =~= seq![digit_char(d as int)]);
    }
    s
}

/// Appends the decimal numeral of `n` to `out`.
pub fn push_decimal(out: &mut String, n: u64)
    ensures
        final(out)@ == old(out)@ + decimal(n as nat),
    decreases n,
{
    if n >= 10 {
        push_decimal(out, n / 10);
    }
    out.append(digit_str(n % 10));
    proof {
        if n >= 10 {
            assert(final(out)@ =~= old(out)@ + decimal(n as nat));
        } else {
            assert(final(out)@ =~= old(out)@ + decimal(n as nat));
        }
    }
}

/// The decimal numeral of `n` as a string.
pub fn decimal_string(n: u64) -> (s: String)
    ensures
        s@ == decimal(n as nat),
{
    let mut s = String::new();
    push_decimal(&mut s, n);
    proof {
        assert(Seq::<char>::empty() + decimal(n as nat) =~= decimal(n as nat));
    }
    s
}

/// `s` begins with `p`.
pub open spec fn starts_with_spec(s: Seq<char>, p: Seq<char>) -> bool {
    p.len() <= s.len() && s.subrange(0, p.len() as int) == p
}

/// Tells whether the characters of `s` from `at` on begin with `p`.
pub fn starts_with_at(s: &[char], at: usize, p: &[char]) -> (b: bool)
    requires
        at <= s@.len(),
    ensures
        b == starts_with_spec(s@.subrange(at as int, s@.len() as int), p@),
{
    let ghost tail = s@.subrange(at as int, s@.len() as int);
    if p.len() > s.len() - at {
        return false;
    }
    let mut i: usize = 0;
    while i < p.len()
        invariant
            i <= p.len(),
            at + p.len() <= s.len(),
            tail == s@.subrange(at as int, s@.len() as int),
            forall|j: int| 0 <= j < i ==> s@[at + j] == p@[j],
        decreases p.len() - i,
    {
        if s[at + i] != p[i] {
            proof {
                assert(tail.subrange(0, p@.len() as int)[i as int] == s@[at + i]);
            }
            return false;
        }
        i += 1;
    }
    proof {
        assert(tail.subrange(0, p@.len() as int) =~= p@);
    }
    true
}

/// Tells whether `s` begins with `p`.
pub fn starts_with(s: &[char], p: &[char]) -> (b: bool)
    ensures
        b == starts_with_spec(s@, p@),
{
    proof {
        assert(s@.subrange(0, s@.len() as int) =~= s@);
    }
    starts_with_at(s, 0, p)
}

/// Tells whether two runs of characters are the same.
pub fn chars_eq(a: &[char], b: &[char]) -> (r: bool)
    ensures
        r == (a@ == b@),
{
    if a.len() != b.len() {
        return false;
    }
    let r = starts_with(a, b);
    proof {
        assert(a@.subrange(0, a@.len() as int) =~= a@);
    }
    r
}

/// Tells whether two strings hold the same characters.
pub fn str_eq(a: &str, b: &str) -> (r: bool)
    ensures
        r == (a@ == b@),
{
    let x = to_chars(a);
    let y = to_chars(b);
    chars_eq(x.as_slice(), y.as_slice())
}

/// The part of `s` between the character positions `from` and `to`, as a string.
pub fn slice_string(s: &str, from: usize, to: usize) -> (r: String)
    requires
        from <= to <= s@.len(),
    ensures
        r@ == s@.subrange(from as int, to as int),
{
    String::from_str(s.substring_char(from, to))
}

/// The position of the last `c` in `s`; -1 where there is none.
pub open spec fn last_index_of(s: Seq<char>, c: char) -> int
    decreases s.len(),
{
    if s.len() == 0 {
        -1
    } else if s.last() == c {
        s.len() - 1
    } else {
        last_index_of(s.drop_last(), c)
    }
}

/// The last `c` of `s` stands at the position found, and none stands after it.
pub proof fn lemma_last_index_of(s: Seq<char>, c: char)
    ensures
        -1 <= last_index_of(s, c) < s.len(),
        last_index_of(s, c) >= 0 ==> s[last_index_of(s, c)] == c,
        forall|j: int| last_index_of(s, c) < j < s.len() ==> s[j] != c,
    decreases s.len(),
{
    if s.len() > 0 && s.last() != c {
        lemma_last_index_of(s.drop_last(), c);
        assert forall|j: int| last_index_of(s, c) < j < s.len() implies s[j] != c by {
            if j < s.len() - 1 {
                assert(s.drop_last()[j] == s[j]);
            }
        }
    }
}

/// Finds the last `c` in `s`.
pub fn find_last(s: &[char], c: char) -> (r: Option<usize>)
    ensures
        match r {
            Some(i) => last_index_of(s@, c) == i,
            None => last_index_of(s@, c) == -1,
        },
{
    let mut i: usize = s.len();
    proof {
        assert(s@.subrange(0, s@.len() as int) =~= s@);
    }
    while i > 0
        invariant
            i <= s.len(),
            last_index_of(s@, c) == last_index_of(s@.subrange(0, i as int), c),
        decreases i,
    {
        if s[i - 1] == c {
            return Some(i - 1);
        }
        proof {
            assert(s@.subrange(0, i as int).drop_last() =~= s@.subrange(0, i - 1));
        }
        i -= 1;
    }
    None
}

/// What is left of `s` once every leading repetition of `p` is taken off.
pub open spec fn trim_start_all(s: Seq<char>, p: Seq<char>) -> Seq<char>
    decreases s.len(),
{
    if p.len() > 0 && starts_with_spec(s, p) {
        trim_start_all(s.subrange(p.len() as int, s.len() as int), p)
    } else {
        s
    }
}

/// The number of characters that the leading repetitions of `p` take in `s`.
pub fn leading_repeats(s: &[char], p: &[char]) -> (k: usize)
    ensures
        k <= s@.len(),
        trim_start_all(s@, p@) == s@.subrange(k as int, s@.len() as int),
{
    let mut k: usize = 0;
    proof {
        assert(s@.subrange(0, s@.len() as int) =~= s@);
    }
    if p.len() == 0 {
        return 0;
    }
    while starts_with_at(s, k, p)
        invariant
            k <= s.len(),
            p.len() > 0,
            trim_start_all(s@, p@) == trim_start_all(s@.subrange(k as int, s@.len() as int), p@),
        decreases s.len() - k,
    {
        proof {
            let tail = s@.subrange(k as int, s@.len() as int);
            assert(tail.subrange(p@.len() as int, tail.len() as int) =~= s@.subrange(
                k + p@.len(),
                s@.len() as int,
            ));
        }
        k += p.len();
    }
    k
}

/// The number of leading characters of `s` that are `c`.
pub open spec fn leading_count(s: Seq<char>, c: char) -> int
    decreases s.len(),
{
    if s.len() > 0 && s[0] == c {
        1 + leading_count(s.drop_first(), c)
    } else {
        0
    }
}

/// Counts the leading characters of `s` from `at` on that are `c`.
pub fn count_leading(s: &[char], at: usize, c: char) -> (k: usize)
    requires
        at <= s@.len(),
    ensures
        k == leading_count(s@.subrange(at as int, s@.len() as int), c),
        at + k <= s@.len(),
{
    let mut k: usize = 0;
    while at + k < s.len() && s[at + k] == c
        invariant
            at + k <= s.len(),
            leading_count(s@.subrange(at as int, s@.len() as int), c) == k + leading_count(
                s@.subrange(at + k, s@.len() as int),
                c,
            ),
        decreases s.len() - k,
    {
        proof {
            assert(s@.subrange(at + k, s@.len() as int).drop_first() =~= s@.subrange(
                at + k + 1,
                s@.len() as int,
            ));
        }
        k += 1;
    }
    k
}

/// `a` comes before `b` in the order of strings: at the first position
/// where they differ `a` has the smaller character, or `a` ends there and
/// `b` goes on.
pub open spec fn lex_lt(a: Seq<char>, b: Seq<char>) -> bool
    decreases a.len(),
{
    if b.len() == 0 {
        false
    } else if a.len() == 0 {
        true
    } else if a[0] != b[0] {
        a[0] < b[0]
    } else {
        lex_lt(a.drop_first(), b.drop_first())
    }
}

/// Nothing comes before itself.
pub proof fn lemma_lex_irreflexive(a: Seq<char>)
    ensures
        !lex_lt(a, a),
    decreases a.len(),
{
    if a.len() > 0 {
        lemma_lex_irreflexive(a.drop_first());
    }
}

/// The order of strings is transitive.
pub proof fn lemma_lex_transitive(a: Seq<char>, b: Seq<char>, c: Seq<char>)
    requires
        lex_lt(a, b),
        lex_lt(b, c),
    ensures
        lex_lt(a, c),
    decreases a.len(),
{
    if a.len() > 0 && b.len() > 0 && c.len() > 0 {
        if a[0] == b[0] && b[0] == c[0] {
            lemma_lex_transitive(a.drop_first(), b.drop_first(), c.drop_first());
        }
    }
}

/// Of two different strings one comes before the other.
pub proof fn lemma_lex_total(a: Seq<char>, b: Seq<char>)
    requires
        a != b,
    ensures
        lex_lt(a, b) || lex_lt(b, a),
    decreases a.len(),
{
    if a.len() > 0 && b.len() > 0 {
        if a[0] == b[0] {
            if a.drop_first() == b.drop_first() {
                assert(a =~= seq![a[0]] + a.drop_first());
                assert(b =~= seq![b[0]] + b.drop_first());
                assert(a == b);
            } else {
                lemma_lex_total(a.drop_first(), b.drop_first());
            }
        }
    } else if a.len() == 0 && b.len() == 0 {
        assert(a =~= b);
    }
}

/// Tells whether `a` comes before `b` in the order of strings.
pub fn lex_less(a: &[char], b: &[char]) -> (r: bool)
    ensures
        r == lex_lt(a@, b@),
{
    let mut i: usize = 0;
    proof {
        assert(a@.subrange(0, a@.len() as int) =~= a@);
        assert(b@.subrange(0, b@.len() as int) =~= b@);
    }
    loop
        invariant
            i <= a.len(),
            i <= b.len(),
            lex_lt(a@, b@) == lex_lt(
                a@.subrange(i as int, a@.len() as int),
                b@.subrange(i as int, b@.len() as int),
            ),
        decreases a.len() - i,
    {
        if i >= b.len() {
            return false;
        }
        if i >= a.len() {
            return true;
        }
        if a[i] != b[i] {
            return a[i] < b[i];
        }
        proof {
            assert(a@.subrange(i as int, a@.len() as int).drop_first() =~= a@.subrange(
                i + 1,
                a@.len() as int,
            ));
            assert(b@.subrange(i as int, b@.len() as int).drop_first() =~= b@.subrange(
                i + 1,
                b@.len() as int,
            ));
        }
        i += 1;
    }
}

/// The position of the first `c` in `s`; the length of `s` where there is none.
pub open spec fn first_index_of(s: Seq<char>, c: char) -> int
    decreases s.len(),
{
    if s.len() == 0 {
        0
    } else if s[0] == c {
        0
    } else {
        1 + first_index_of(s.drop_first(), c)
    }
}

/// The first `c` of `s` stands at the position found, and none stands before it.
pub proof fn lemma_first_index_of(s: Seq<char>, c: char)
    ensures
        0 <= first_index_of(s, c) <= s.len(),
        first_index_of(s, c) < s.len() ==> s[first_index_of(s, c)] == c,
        forall|j: int| 0 <= j < first_index_of(s, c) ==> s[j] != c,
    decreases s.len(),
{
    if s.len() > 0 && s[0] != c {
        lemma_first_index_of(s.drop_first(), c);
        assert forall|j: int| 0 <= j < first_index_of(s, c) implies s[j] != c by {
            if j > 0 {
                assert(s.drop_first()[j - 1] == s[j]);
            }
        }
    }
}

/// Finds the first `c` in `s` from `at` on, counted from `at`.
pub fn find_first_from(s: &[char], at: usize, c: char) -> (k: usize)
    requires
        at <= s@.len(),
    ensures
        k == first_index_of(s@.subrange(at as int, s@.len() as int), c),
        at + k <= s@.len(),
{
    let mut k: usize = 0;
    while at + k < s.len() && s[at + k] != c
        invariant
            at + k <= s.len(),
            first_index_of(s@.subrange(at as int, s@.len() as int), c) == k + first_index_of(
                s@.subrange(at + k, s@.len() as int),
                c,
            ),
        decreases s.len() - k,
    {
        proof {
            assert(s@.subrange(at + k, s@.len() as int).drop_first() =~= s@.subrange(
                at + k + 1,
                s@.len() as int,
            ));
        }
        k += 1;
    }
    k
}

/// A line without the carriage return that ends it, if one does.
pub open spec fn strip_cr(line: Seq<char>) -> Seq<char> {
    if line.len() > 0 && line.last() == '\r' {
        line.drop_last()
    } else {
        line
    }
}

/// The lines of a text: the runs between line feeds, each without the
/// carriage return before its line feed; a last run without a line feed
/// is a line as it stands, and an empty one is none.
pub open spec fn lines_spec(text: Seq<char>) -> Seq<Seq<char>>
    decreases text.len(),
{
    if text.len() == 0 {
        Seq::empty()
    } else {
        let i = first_index_of(text, '\n');
        if i < 0 || i >= text.len() {
            seq![text]
        } else {
            seq![strip_cr(text.subrange(0, i))] + lines_spec(
                text.subrange(i + 1, text.len() as int),
            )
        }
    }
}

/// The views of a run of strings.
pub open spec fn texts_of(v: Seq<String>) -> Seq<Seq<char>> {
    Seq::new(v.len(), |i: int| v[i]@)
}

/// Splits a text into its lines.
pub fn lines(text: &str) -> (out: Vec<String>)
    ensures
        texts_of(out@) == lines_spec(text@),
{
    let chars = to_chars(text);
    let mut out: Vec<String> = Vec::new();
    let mut at: usize = 0;
    proof {
        assert(chars@.subrange(0, chars@.len() as int) =~= chars@);
        assert(texts_of(out@) =~= Seq::<Seq<char>>::empty());
    }
    while at < chars.len()
        invariant
            at <= chars.len(),
            chars@ == text@,
            lines_spec(text@) == texts_of(out@) + lines_spec(
                chars@.subrange(at as int, chars@.len() as int),
            ),
        decreases chars.len() - at,
    {
        let ghost rest = chars@.subrange(at as int, chars@.len() as int);
        let k = find_first_from(chars.as_slice(), at, '\n');
        proof {
            lemma_first_index_of(rest, '\n');
        }
        if at + k >= chars.len() {
            let line = slice_string(text, at, chars.len());
            let ghost before = texts_of(out@);
            out.push(line);
            proof {
                assert(texts_of(out@) =~= before + seq![rest]);
                assert(lines_spec(Seq::<char>::empty()) =~= Seq::<Seq<char>>::empty());
                assert(chars@.subrange(chars@.len() as int, chars@.len() as int) =~= Seq::<
                    char,
                >::empty());
                assert(texts_of(out@) + Seq::<Seq<char>>::empty() =~= texts_of(out@));
            }
            at = chars.len();
        } else {
            let end: usize = if k > 0 && chars[at + k - 1] == '\r' {
                at + k - 1
            } else {
                at + k
            };
            let line = slice_string(text, at, end);
            let ghost before = texts_of(out@);
            out.push(line);
            proof {
                assert(rest.subrange(0, k as int) =~= chars@.subrange(at as int, at + k));
                assert(strip_cr(rest.subrange(0, k as int)) =~= chars@.subrange(
                    at as int,
                    end as int,
                ));
                assert(texts_of(out@) =~= before + seq![strip_cr(rest.subrange(0, k as int))]);
                assert(rest.subrange(k + 1, rest.len() as int) =~= chars@.subrange(
                    at + k + 1,
                    chars@.len() as int,
                ));
                assert(lines_spec(rest) =~= seq![strip_cr(rest.subrange(0, k as int))]
                    + lines_spec(rest.subrange(k + 1, rest.len() as int)));
            }
            at = at + k + 1;
        }
    }
    proof {
        assert(chars@.subrange(at as int, chars@.len() as int) =~= Seq::<char>::empty());
        assert(texts_of(out@) + Seq::<Seq<char>>::empty() =~= texts_of(out@));
    }
    out
}

/// The characters other than `c`.
pub open spec fn other_than(c: char) -> spec_fn(char) -> bool {
    |x: char| x != c
}

/// A run that holds no `c` loses nothing when every `c` is taken out.
pub proof fn lemma_filter_keeps_run(s: Seq<char>, c: char)
    requires
        forall|j: int| 0 <= j < s.len() ==> s[j] != c,
    ensures
        s.filter(other_than(c)) == s,
    decreases s.len(),
{
    reveal(Seq::filter);
    if s.len() > 0 {
        assert forall|j: int| 0 <= j < s.drop_last().len() implies s.drop_last()[j] != c by {
            assert(s.drop_last()[j] == s[j]);
        }
        lemma_filter_keeps_run(s.drop_last(), c);
        assert(s.drop_last().push(s.last()) =~= s);
    }
}

/// The text without any `c`.
pub fn remove_char(text: &str, c: char) -> (out: String)
    ensures
        out@ == text@.filter(other_than(c)),
{
    let chars = to_chars(text);
    let mut out = String::new();
    let mut at: usize = 0;
    proof {
        reveal(Seq::filter);
        assert(chars@.subrange(0, 0).filter(other_than(c)) =~= Seq::<char>::empty());
    }
    while at < chars.len()
        invariant
            at <= chars.len(),
            chars@ == text@,
            out@ == chars@.subrange(0, at as int).filter(other_than(c)),
        decreases chars.len() - at,
    {
        let ghost rest = chars@.subrange(at as int, chars@.len() as int);
        let k = find_first_from(chars.as_slice(), at, c);
        let piece = text.substring_char(at, at + k);
        let ghost before = out@;
        out.append(piece);
        proof {
            lemma_first_index_of(rest, c);
            let run = chars@.subrange(at as int, at + k);
            assert forall|j: int| 0 <= j < run.len() implies run[j] != c by {
                assert(run[j] == rest[j]);
            }
            lemma_filter_keeps_run(run, c);
            Seq::filter_distributes_over_add(chars@.subrange(0, at as int), run, other_than(c));
            assert(chars@.subrange(0, at as int) + run =~= chars@.subrange(0, at + k));
        }
        if at + k < chars.len() {
            proof {
                let upto = chars@.subrange(0, at + k);
                assert(rest[k as int] == c);
                assert(chars@.subrange(0, at + k + 1) =~= upto.push(c));
                upto.lemma_filter_push(c, other_than(c));
            }
            at = at + k + 1;
        } else {
            at = chars.len();
        }
    }
    proof {
        assert(chars@.subrange(0, chars@.len() as int) =~= chars@);
    }
    out
}

/// The value of a decimal digit; -1 for any other character.
pub open spec fn digit_of(c: char) -> int {
    if '0' <= c && c <= '9' {
        c as int - '0' as int
    } else {
        -1
    }
}

/// The number that a run of decimal digits writes; nothing for an empty
/// run and for one that holds another character.
pub open spec fn digits_value(s: Seq<char>) -> Option<nat>
    decreases s.len(),
{
    if s.len() == 0 {
        None
    } else if digit_of(s.last()) < 0 {
        None
    } else if s.len() == 1 {
        Some(digit_of(s.last()) as nat)
    } else {
        match digits_value(s.drop_last()) {
            Some(v) => Some(v * 10 + digit_of(s.last()) as nat),
            None => None,
        }
    }
}

/// The number that a text writes in decimal, with an optional `+` before
/// its digits, where it fits the machine's word.
pub open spec fn parse_usize_spec(s: Seq<char>) -> Option<usize> {
    let digits = if s.len() > 0 && s[0] == '+' {
        s.drop_first()
    } else {
        s
    };
    match digits_value(digits) {
        Some(v) => if v <= usize::MAX {
            Some(v as usize)
        } else {
            None
        },
        None => None,
    }
}

/// What a run of digits writes is no less than what a shorter run of its
/// first digits writes.
pub proof fn lemma_digits_grow(s: Seq<char>, i: int)
    requires
        1 <= i <= s.len(),
        digits_value(s) is Some,
    ensures
        digits_value(s.subrange(0, i)) is Some,
        digits_value(s.subrange(0, i))->0 <= digits_value(s)->0,
    decreases s.len() - i,
{
    if i < s.len() {
        assert(s.drop_last().subrange(0, i) =~= s.subrange(0, i));
        lemma_digits_grow(s.drop_last(), i);
    } else {
        assert(s.subrange(0, i) =~= s);
    }
}

/// Reads a number written in decimal.
pub fn parse_usize(text: &str) -> (r: Option<usize>)
    ensures
        r == parse_usize_spec(text@),
{
    let chars = to_chars(text);
    let start: usize = if chars.len() > 0 && chars[0] == '+' {
        1
    } else {
        0
    };
    let digits = vstd::slice::slice_subrange(chars.as_slice(), start, chars.len());
    proof {
        assert(digits@ =~= if text@.len() > 0 && text@[0] == '+' {
            text@.drop_first()
        } else {
            text@
        });
    }
    if digits.len() == 0 {
        return None;
    }
    let mut acc: usize = 0;
    let mut i: usize = 0;
    while i < digits.len()
        invariant
            i <= digits.len(),
            i > 0 ==> digits_value(digits@.subrange(0, i as int)) == Some(acc as nat),
            i == 0 ==> acc == 0,
            digits@ == (if text@.len() > 0 && text@[0] == '+' {
                text@.drop_first()
            } else {
                text@
            }),
        decreases digits.len() - i,
    {
        let c = digits[i];
        proof {
            assert(digits@.subrange(0, i + 1).last() == c);
            assert(digits@.subrange(0, i + 1).drop_last() =~= digits@.subrange(0, i as int));
        }
        if c < '0' || c > '9' {
            proof {
                if digits_value(digits@) is Some {
                    lemma_digits_grow(digits@, i + 1);
                }
            }
            return None;
        }
        let d = (c as u32 - '0' as u32) as usize;
        proof {
            assert(digit_of(c) == d);
            assert(digits_value(digits@.subrange(0, i + 1)) == Some((acc * 10 + d) as nat));
        }
        let next = match acc.checked_mul(10) {
            Some(m) => m.checked_add(d),
            None => None,
        };
        match next {
            Some(n) => {
                acc = n;
            },
            None => {
                proof {
                    if digits_value(digits@) is Some {
                        lemma_digits_grow(digits@, i + 1);
                    }
                }
                return None;
            },
        }
        i += 1;
    }
    proof {
        assert(digits@.subrange(0, digits@.len() as int) =~= digits@);
    }
    Some(acc)
}

} // verus!
