//! Text as sequences of characters: trimming, splitting, searching, numbers.

use vstd::prelude::*;

verus! {

// ---------------------------------------------------------------------------
// Views
// ---------------------------------------------------------------------------

/// The texts of a sequence of owned strings.
pub open spec fn texts(v: Seq<String>) -> Seq<Seq<char>> {
    Seq::new(v.len(), |i: int| v[i]@)
}

/// The texts of a sequence of string slices.
pub open spec fn slices(v: Seq<&str>) -> Seq<Seq<char>> {
    Seq::new(v.len(), |i: int| v[i]@)
}

/// The text of an optional string.
pub open spec fn optional(s: Option<String>) -> Option<Seq<char>> {
    match s {
        Some(s) => Some(s@),
        None => None,
    }
}

/// The characters of `s`.
pub fn chars(s: &str) -> (r: Vec<char>)
    ensures
        r@ == s@,
{
    let mut r: Vec<char> = Vec::new();
    for c in it: s.chars()
        invariant
            r@ == it.seq().take(it.index()),
            it.seq() == s@,
    {
        r.push(c);
    }
    r
}

/// Are the two texts the same?
pub fn equal(a: &str, b: &str) -> (r: bool)
    ensures
        r == (a@ == b@),
{
    let x = chars(a);
    let y = chars(b);
    if x.len() != y.len() {
        return false;
    }
    for i in 0..x.len()
        invariant
            x.len() == y.len(),
            forall|j: int| 0 <= j < i ==> x[j] == y[j],
            x@ == a@,
            y@ == b@,
    {
        if x[i] != y[i] {
            return false;
        }
    }
    assert(a@ =~= b@);
    true
}

/// `a` followed by `b`.
pub fn concat(a: &str, b: &str) -> (r: String)
    ensures
        r@ == a@ + b@,
{
    let mut r = a.to_string();
    r.append(b);
    r
}

// ---------------------------------------------------------------------------
// Bytes
// ---------------------------------------------------------------------------

/// The text that `bytes` hold when everything that is not UTF-8 is replaced.
pub uninterp spec fn utf8_lossy(bytes: Seq<u8>) -> Seq<char>;

/// [`String::from_utf8_lossy`]: the result depends on the bytes alone, and bytes
/// that are UTF-8 are decoded as such. How invalid stretches are replaced is not
/// stated.
#[verifier::external_body]
fn from_utf8_lossy(bytes: &[u8]) -> (r: String)
    ensures
        r@ == utf8_lossy(bytes@),
        vstd::utf8::valid_utf8(bytes@) ==> r@ == vstd::utf8::decode_utf8(bytes@),
{
    String::from_utf8_lossy(bytes).into_owned()
}

/// The text that `bytes` hold: decoded from UTF-8, or where they are not UTF-8
/// with the invalid stretches replaced.
pub open spec fn decoded(bytes: Seq<u8>) -> Seq<char> {
    if vstd::utf8::valid_utf8(bytes) {
        vstd::utf8::decode_utf8(bytes)
    } else {
        utf8_lossy(bytes)
    }
}

/// The text that `bytes` hold.
pub fn decode(bytes: &[u8]) -> (r: String)
    ensures
        r@ == decoded(bytes@),
{
    from_utf8_lossy(bytes)
}

// ---------------------------------------------------------------------------
// White space
// ---------------------------------------------------------------------------

/// The characters with the Unicode property `White_Space`.
pub open spec fn is_white_space(c: char) -> bool {
    let u = c as u32;
    ||| 0x9 <= u <= 0xd
    ||| u == 0x20
    ||| u == 0x85
    ||| u == 0xa0
    ||| u == 0x1680
    ||| 0x2000 <= u <= 0x200a
    ||| u == 0x2028
    ||| u == 0x2029
    ||| u == 0x202f
    ||| u == 0x205f
    ||| u == 0x3000
}

/// Does `c` have the Unicode property `White_Space`?
pub fn white_space(c: char) -> (r: bool)
    ensures
        r == is_white_space(c),
{
    let u: u32 = c as u32;
    (0x9 <= u && u <= 0xd) || u == 0x20 || u == 0x85 || u == 0xa0 || u == 0x1680 || (0x2000 <= u
        && u <= 0x200a) || u == 0x2028 || u == 0x2029 || u == 0x202f || u == 0x205f || u == 0x3000
}

/// How many white-space characters `t` starts with.
pub open spec fn indent(t: Seq<char>) -> int
    decreases t.len(),
{
    if t.len() == 0 || !is_white_space(t[0]) {
        0
    } else {
        1 + indent(t.drop_first())
    }
}

/// `t` without the white space in front.
pub open spec fn trimmed_start(t: Seq<char>) -> Seq<char> {
    t.skip(indent(t))
}

/// `t` without the white space behind.
pub open spec fn trimmed_end(t: Seq<char>) -> Seq<char>
    decreases t.len(),
{
    if t.len() == 0 || !is_white_space(t.last()) {
        t
    } else {
        trimmed_end(t.drop_last())
    }
}

/// `t` without the white space at its two ends.
pub open spec fn trimmed(t: Seq<char>) -> Seq<char> {
    trimmed_end(trimmed_start(t))
}

/// Neither the first nor the last character of `t` is white space.
pub open spec fn is_trimmed(t: Seq<char>) -> bool {
    t.len() > 0 ==> !is_white_space(t[0]) && !is_white_space(t.last())
}

pub proof fn lemma_indent(t: Seq<char>)
    ensures
        0 <= indent(t) <= t.len(),
        forall|j: int| 0 <= j < indent(t) ==> is_white_space(#[trigger] t[j]),
        indent(t) < t.len() ==> !is_white_space(t[indent(t)]),
    decreases t.len(),
{
    if t.len() > 0 && is_white_space(t[0]) {
        let rest = t.drop_first();
        lemma_indent(rest);
        assert forall|j: int| 0 <= j < indent(t) implies is_white_space(#[trigger] t[j]) by {
            if j > 0 {
                assert(rest[j - 1] == t[j]);
            }
        }
    }
}

pub proof fn lemma_indent_is(t: Seq<char>, n: int)
    requires
        0 <= n <= t.len(),
        forall|j: int| 0 <= j < n ==> is_white_space(#[trigger] t[j]),
        n < t.len() ==> !is_white_space(t[n]),
    ensures
        indent(t) == n,
{
    lemma_indent(t);
}

pub proof fn lemma_trimmed_end_is(t: Seq<char>, n: int)
    requires
        0 <= n <= t.len(),
        forall|j: int| n <= j < t.len() ==> is_white_space(#[trigger] t[j]),
        n > 0 ==> !is_white_space(t[n - 1]),
    ensures
        trimmed_end(t) == t.take(n),
    decreases t.len(),
{
    if t.len() == n {
        assert(t.take(n) =~= t);
    } else {
        lemma_trimmed_end_is(t.drop_last(), n);
        assert(t.drop_last().take(n) =~= t.take(n));
    }
}

/// What trimming leaves is a stretch of `t` with nothing but white space
/// around it.
pub proof fn lemma_trimmed(t: Seq<char>) -> (r: (int, int))
    ensures
        0 <= r.0 <= r.1 <= t.len(),
        trimmed(t) == t.subrange(r.0, r.1),
        is_trimmed(trimmed(t)),
        forall|j: int| 0 <= j < r.0 ==> is_white_space(#[trigger] t[j]),
        forall|j: int| r.1 <= j < t.len() ==> is_white_space(#[trigger] t[j]),
    decreases t.len(),
{
    lemma_indent(t);
    let a = indent(t);
    let s = trimmed_start(t);
    let n = lemma_trimmed_end(s);
    assert(s.take(n) =~= t.subrange(a, a + n));
    assert forall|j: int| a + n <= j < t.len() implies is_white_space(#[trigger] t[j]) by {
        assert(s[j - a] == t[j]);
    }
    (a, a + n)
}

proof fn lemma_trimmed_end(t: Seq<char>) -> (n: int)
    ensures
        0 <= n <= t.len(),
        trimmed_end(t) == t.take(n),
        forall|j: int| n <= j < t.len() ==> is_white_space(#[trigger] t[j]),
        n > 0 ==> !is_white_space(t[n - 1]),
    decreases t.len(),
{
    if t.len() == 0 || !is_white_space(t.last()) {
        assert(t.take(t.len() as int) =~= t);
        t.len() as int
    } else {
        let n = lemma_trimmed_end(t.drop_last());
        assert(t.drop_last().take(n) =~= t.take(n));
        assert forall|j: int| n <= j < t.len() implies is_white_space(#[trigger] t[j]) by {
            if j < t.len() - 1 {
                assert(t.drop_last()[j] == t[j]);
            }
        }
        n
    }
}

/// Text with no white space at its ends is left alone by trimming.
pub proof fn lemma_trimmed_fixed(t: Seq<char>)
    requires
        is_trimmed(t),
    ensures
        trimmed(t) == t,
{
    assert(t.skip(0) =~= t);
}

/// `s` without the white space at its two ends.
pub fn trim<'a>(s: &'a str) -> (r: &'a str)
    ensures
        r@ == trimmed(s@),
{
    let t = chars(s);
    let n = t.len();
    let mut a: usize = 0;
    while a < n && white_space(t[a])
        invariant
            n == t.len(),
            a <= n,
            forall|j: int| 0 <= j < a ==> is_white_space(#[trigger] t@[j]),
        decreases n - a,
    {
        a = a + 1;
    }
    let mut b: usize = n;
    while a < b && white_space(t[b - 1])
        invariant
            n == t.len(),
            a <= b <= n,
            a < n ==> !is_white_space(t@[a as int]),
            forall|j: int| b <= j < n ==> is_white_space(#[trigger] t@[j]),
        decreases b - a,
    {
        b = b - 1;
    }
    proof {
        lemma_indent_is(t@, a as int);
        let s1 = trimmed_start(t@);
        lemma_trimmed_end_is(s1, b - a);
        assert(s1.take(b - a) =~= t@.subrange(a as int, b as int));
    }
    s.substring_char(a, b)
}

// ---------------------------------------------------------------------------
// Searching and splitting
// ---------------------------------------------------------------------------

/// Where `c` first stands in `t`, or the length of `t` if it does not.
pub open spec fn find(t: Seq<char>, c: char) -> int
    decreases t.len(),
{
    if t.len() == 0 || t[0] == c {
        0
    } else {
        1 + find(t.drop_first(), c)
    }
}

pub proof fn lemma_find(t: Seq<char>, c: char)
    ensures
        0 <= find(t, c) <= t.len(),
        forall|j: int| 0 <= j < find(t, c) ==> #[trigger] t[j] != c,
        find(t, c) < t.len() ==> t[find(t, c)] == c,
    decreases t.len(),
{
    if t.len() > 0 && t[0] != c {
        let rest = t.drop_first();
        lemma_find(rest, c);
        assert forall|j: int| 0 <= j < find(t, c) implies #[trigger] t[j] != c by {
            if j > 0 {
                assert(rest[j - 1] == t[j]);
            }
        }
    }
}

pub proof fn lemma_find_is(t: Seq<char>, c: char, n: int)
    requires
        0 <= n <= t.len(),
        forall|j: int| 0 <= j < n ==> #[trigger] t[j] != c,
        n < t.len() ==> t[n] == c,
    ensures
        find(t, c) == n,
{
    lemma_find(t, c);
}

/// Does `c` occur in `s`?
pub fn contains_char(s: &str, c: char) -> (r: bool)
    ensures
        r == s@.contains(c),
{
    let t = chars(s);
    for i in 0..t.len()
        invariant
            t@ == s@,
            forall|j: int| 0 <= j < i ==> t[j] != c,
    {
        if t[i] == c {
            assert(s@[i as int] == c);
            return true;
        }
    }
    false
}

/// The parts of `t` before and after the first `c`.
pub open spec fn split_at_first(t: Seq<char>, c: char) -> Option<(Seq<char>, Seq<char>)> {
    let n = find(t, c);
    if n < t.len() {
        Some((t.take(n), t.skip(n + 1)))
    } else {
        None
    }
}

/// Splits `s` at the first `c`, which is in neither part.
pub fn split_once<'a>(s: &'a str, c: char) -> (r: Option<(&'a str, &'a str)>)
    ensures
        match r {
            Some((a, b)) => split_at_first(s@, c) == Some((a@, b@)),
            None => split_at_first(s@, c) is None,
        },
{
    let t = chars(s);
    let n = t.len();
    let mut i: usize = 0;
    while i < n && t[i] != c
        invariant
            n == t.len(),
            i <= n,
            forall|j: int| 0 <= j < i ==> #[trigger] t@[j] != c,
        decreases n - i,
    {
        i = i + 1;
    }
    proof {
        lemma_find_is(t@, c, i as int);
    }
    if i == n {
        return None;
    }
    let a = s.substring_char(0, i);
    let b = s.substring_char(i + 1, n);
    proof {
        assert(a@ =~= s@.take(i as int));
        assert(b@ =~= s@.skip(i + 1));
    }
    Some((a, b))
}

/// `t` without one carriage return at its end.
pub open spec fn without_return(t: Seq<char>) -> Seq<char> {
    if t.len() > 0 && t.last() == '\r' {
        t.drop_last()
    } else {
        t
    }
}

/// The lines of `t`: each ends before a line feed, or before a carriage return
/// and a line feed; what follows the last line feed is a line unless it is
/// empty.
pub open spec fn lines_of(t: Seq<char>) -> Seq<Seq<char>>
    decreases t.len(),
{
    if t.len() == 0 {
        seq![]
    } else {
        proof {
            lemma_find(t, '\n');
        }
        match split_at_first(t, '\n') {
            Some((line, rest)) => seq![without_return(line)] + lines_of(rest),
            None => seq![t],
        }
    }
}

/// The lines of `s`, without their line endings.
pub fn lines<'a>(s: &'a str) -> (r: Vec<&'a str>)
    ensures
        slices(r@) == lines_of(s@),
{
    let t = chars(s);
    let n = t.len();
    let mut r: Vec<&'a str> = Vec::new();
    let mut start: usize = 0;
    proof {
        assert(s@.skip(0) =~= s@);
        assert(slices(r@) + lines_of(s@) =~= lines_of(s@));
    }
    while start < n
        invariant
            t@ == s@,
            n == t.len(),
            start <= n,
            slices(r@) + lines_of(s@.skip(start as int)) == lines_of(s@),
        decreases n - start,
    {
        let mut i: usize = start;
        while i < n && t[i] != '\n'
            invariant
                n == t.len(),
                start <= i <= n,
                forall|j: int| start <= j < i ==> #[trigger] t@[j] != '\n',
            decreases n - i,
        {
            i = i + 1;
        }
        let ghost rest = s@.skip(start as int);
        let ghost done = slices(r@);
        proof {
            assert forall|j: int| 0 <= j < i - start implies #[trigger] rest[j] != '\n' by {
                assert(rest[j] == t@[start + j]);
            }
            lemma_find_is(rest, '\n', i - start);
        }
        if i == n {
            let line = s.substring_char(start, n);
            r.push(line);
            proof {
                assert(line@ =~= rest);
                assert(slices(r@) =~= done.push(line@));
                assert(s@.skip(n as int).len() == 0);
                assert(slices(r@) + lines_of(s@.skip(n as int)) =~= done + seq![rest]);
            }
            start = n;
        } else {
            let end: usize = if i > start && t[i - 1] == '\r' {
                i - 1
            } else {
                i
            };
            let line = s.substring_char(start, end);
            r.push(line);
            proof {
                let whole = rest.take(i - start);
                assert(whole.len() == i - start);
                assert(i > start ==> whole.last() == t@[i - 1]);
                assert(line@ =~= without_return(whole));
                assert(rest.skip(i - start + 1) =~= s@.skip(i + 1));
                assert(slices(r@) =~= done.push(line@));
                assert(slices(r@) + lines_of(s@.skip(i + 1)) =~= done + lines_of(rest));
            }
            start = i + 1;
        }
    }
    proof {
        assert(s@.skip(n as int).len() == 0);
        assert(slices(r@) + lines_of(s@.skip(start as int)) =~= slices(r@));
    }
    r
}

/// How many characters `t` has before its first white space.
pub open spec fn word_len(t: Seq<char>) -> int
    decreases t.len(),
{
    if t.len() == 0 || is_white_space(t[0]) {
        0
    } else {
        1 + word_len(t.drop_first())
    }
}

pub proof fn lemma_word_len(t: Seq<char>)
    ensures
        0 <= word_len(t) <= t.len(),
        forall|j: int| 0 <= j < word_len(t) ==> !is_white_space(#[trigger] t[j]),
        word_len(t) < t.len() ==> is_white_space(t[word_len(t)]),
    decreases t.len(),
{
    if t.len() > 0 && !is_white_space(t[0]) {
        let rest = t.drop_first();
        lemma_word_len(rest);
        assert forall|j: int| 0 <= j < word_len(t) implies !is_white_space(#[trigger] t[j]) by {
            if j > 0 {
                assert(rest[j - 1] == t[j]);
            }
        }
    }
}

pub proof fn lemma_word_len_is(t: Seq<char>, n: int)
    requires
        0 <= n <= t.len(),
        forall|j: int| 0 <= j < n ==> !is_white_space(#[trigger] t[j]),
        n < t.len() ==> is_white_space(t[n]),
    ensures
        word_len(t) == n,
{
    lemma_word_len(t);
}

/// The longest stretches of `t` without white space.
pub open spec fn words_of(t: Seq<char>) -> Seq<Seq<char>>
    decreases t.len(),
{
    let s = trimmed_start(t);
    if s.len() == 0 {
        seq![]
    } else {
        proof {
            lemma_indent(t);
            lemma_word_len(s);
        }
        seq![s.take(word_len(s))] + words_of(s.skip(word_len(s)))
    }
}

/// The words of `s`, which white space separates.
pub fn words<'a>(s: &'a str) -> (r: Vec<&'a str>)
    ensures
        slices(r@) == words_of(s@),
{
    let t = chars(s);
    let n = t.len();
    let mut r: Vec<&'a str> = Vec::new();
    let mut at: usize = 0;
    proof {
        assert(s@.skip(0) =~= s@);
        assert(slices(r@) + words_of(s@) =~= words_of(s@));
    }
    loop
        invariant
            t@ == s@,
            n == t.len(),
            at <= n,
            slices(r@) + words_of(s@.skip(at as int)) == words_of(s@),
        decreases n - at,
    {
        let ghost rest = s@.skip(at as int);
        let mut a: usize = at;
        while a < n && white_space(t[a])
            invariant
                n == t.len(),
                at <= a <= n,
                forall|j: int| at <= j < a ==> is_white_space(#[trigger] t@[j]),
            decreases n - a,
        {
            a = a + 1;
        }
        proof {
            assert forall|j: int| 0 <= j < a - at implies is_white_space(#[trigger] rest[j]) by {
                assert(rest[j] == t@[at + j]);
            }
            lemma_indent_is(rest, a - at);
            assert(trimmed_start(rest) =~= s@.skip(a as int));
        }
        if a == n {
            proof {
                assert(slices(r@) + words_of(rest) =~= slices(r@));
            }
            return r;
        }
        let mut b: usize = a;
        while b < n && !white_space(t[b])
            invariant
                n == t.len(),
                a <= b <= n,
                forall|j: int| a <= j < b ==> !is_white_space(#[trigger] t@[j]),
            decreases n - b,
        {
            b = b + 1;
        }
        let ghost done = slices(r@);
        let word = s.substring_char(a, b);
        r.push(word);
        proof {
            let tail = s@.skip(a as int);
            assert forall|j: int| 0 <= j < b - a implies !is_white_space(#[trigger] tail[j]) by {
                assert(tail[j] == t@[a + j]);
            }
            lemma_word_len_is(tail, b - a);
            assert(word@ =~= tail.take(b - a));
            assert(tail.skip(b - a) =~= s@.skip(b as int));
            assert(slices(r@) =~= done.push(word@));
            assert(slices(r@) + words_of(s@.skip(b as int)) =~= done + words_of(rest));
        }
        at = b;
    }
}

// ---------------------------------------------------------------------------
// Laws
// ---------------------------------------------------------------------------

/// Trimming takes off white space at the two ends and nothing else: what is left
/// is a stretch of the text, with white space alone around it and none at its own
/// ends.
pub proof fn law_trimming_takes_white_space_alone(t: Seq<char>)
    ensures
        exists|a: int, b: int|
            0 <= a <= b <= t.len() && trimmed(t) == #[trigger] t.subrange(a, b) && (forall|j: int|
                0 <= j < a || b <= j < t.len() ==> is_white_space(#[trigger] t[j])),
        trimmed(t).len() > 0 ==> !is_white_space(trimmed(t)[0]) && !is_white_space(
            trimmed(t).last(),
        ),
{
    let (a, b) = lemma_trimmed(t);
    assert(trimmed(t) == t.subrange(a, b));
}

/// Text without white space at its ends is what trimming leaves of it, whatever
/// white space is put around it.
pub proof fn law_white_space_around_does_not_matter(
    before: Seq<char>,
    t: Seq<char>,
    after: Seq<char>,
)
    requires
        forall|j: int| 0 <= j < before.len() ==> is_white_space(#[trigger] before[j]),
        forall|j: int| 0 <= j < after.len() ==> is_white_space(#[trigger] after[j]),
        t.len() > 0 ==> !is_white_space(t[0]) && !is_white_space(t.last()),
    ensures
        trimmed(before + t + after) == t,
{
    let all = before + t + after;
    let n = before.len() as int;
    let m = t.len() as int;
    if m == 0 {
        assert forall|j: int| 0 <= j < all.len() implies is_white_space(#[trigger] all[j]) by {
            if j < n {
                assert(all[j] == before[j]);
            } else {
                assert(all[j] == after[j - n]);
            }
        }
        lemma_indent_is(all, all.len() as int);
        assert(trimmed_start(all) =~= seq![]);
        assert(t =~= seq![]);
    } else {
        assert forall|j: int| 0 <= j < n implies is_white_space(#[trigger] all[j]) by {
            assert(all[j] == before[j]);
        }
        assert(all[n] == t[0]);
        lemma_indent_is(all, n);
        let s = trimmed_start(all);
        assert(s =~= t + after);
        assert forall|j: int| m <= j < s.len() implies is_white_space(#[trigger] s[j]) by {
            assert(s[j] == after[j - m]);
        }
        assert(s[m - 1] == t.last());
        lemma_trimmed_end_is(s, m);
        assert(s.take(m) =~= t);
    }
}

/// A line feed ends a line, with or without a carriage return before it, and what
/// follows are the other lines. Text without a line feed is one line.
pub proof fn law_line_feeds_end_lines(line: Seq<char>, rest: Seq<char>)
    requires
        !line.contains('\n'),
        line.len() > 0 ==> line.last() != '\r',
    ensures
        lines_of(line + seq!['\n'] + rest) == seq![line] + lines_of(rest),
        lines_of(line + seq!['\r', '\n'] + rest) == seq![line] + lines_of(rest),
        line.len() > 0 ==> lines_of(line) == seq![line],
        lines_of(seq![]) == Seq::<Seq<char>>::empty(),
{
    let n = line.len() as int;
    let plain = line + seq!['\n'] + rest;
    assert forall|j: int| 0 <= j < n implies #[trigger] plain[j] != '\n' by {
        assert(plain[j] == line[j]);
    }
    lemma_find_is(plain, '\n', n);
    assert(plain.take(n) =~= line);
    assert(plain.skip(n + 1) =~= rest);
    let cr = line + seq!['\r', '\n'] + rest;
    assert forall|j: int| 0 <= j < n + 1 implies #[trigger] cr[j] != '\n' by {
        if j < n {
            assert(cr[j] == line[j]);
        }
    }
    lemma_find_is(cr, '\n', n + 1);
    assert(cr.take(n + 1) =~= line.push('\r'));
    assert(line.push('\r').drop_last() =~= line);
    assert(cr.skip(n + 2) =~= rest);
    assert forall|j: int| 0 <= j < n implies #[trigger] line[j] != '\n' by {}
    lemma_find_is(line, '\n', n);
}

/// White space separates words, however much of it there is.
pub proof fn law_white_space_separates_words(word: Seq<char>, space: char, rest: Seq<char>)
    requires
        word.len() > 0,
        forall|j: int| 0 <= j < word.len() ==> !is_white_space(#[trigger] word[j]),
        is_white_space(space),
    ensures
        words_of(word + seq![space] + rest) == seq![word] + words_of(rest),
        words_of(seq![space] + rest) == words_of(rest),
        words_of(word) == seq![word],
        words_of(seq![]) == Seq::<Seq<char>>::empty(),
{
    let n = word.len() as int;
    let t = word + seq![space] + rest;
    assert(t[0] == word[0]);
    lemma_indent_is(t, 0);
    assert(t.skip(0) =~= t);
    assert forall|j: int| 0 <= j < n implies !is_white_space(#[trigger] t[j]) by {
        assert(t[j] == word[j]);
    }
    assert(t[n] == space);
    lemma_word_len_is(t, n);
    assert(t.take(n) =~= word);
    let tail = seq![space] + rest;
    assert(t.skip(n) =~= tail);
    lemma_indent(rest);
    lemma_indent(tail);
    assert(tail.drop_first() =~= rest);
    assert(trimmed_start(tail) =~= trimmed_start(rest));
    assert(words_of(tail) == words_of(rest));
    lemma_indent_is(word, 0);
    assert(word.skip(0) =~= word);
    lemma_word_len_is(word, n);
    assert(word.take(n) =~= word);
    let none = word.skip(n);
    assert(none =~= seq![]);
    lemma_indent_is(none, 0);
    assert(words_of(none) =~= seq![]);
    assert(words_of(word) =~= seq![word]);
}

/// A text is split at the first of the characters: neither the character there
/// nor anything else is lost, and the part before holds none of it.
pub proof fn law_split_at_the_first(before: Seq<char>, c: char, after: Seq<char>)
    requires
        !before.contains(c),
    ensures
        split_at_first(before + seq![c] + after, c) == Some((before, after)),
        split_at_first(before, c) is None,
{
    let t = before + seq![c] + after;
    let n = before.len() as int;
    assert forall|j: int| 0 <= j < n implies #[trigger] t[j] != c by {
        assert(t[j] == before[j]);
    }
    lemma_find_is(t, c, n);
    assert(t.take(n) =~= before);
    assert(t.skip(n + 1) =~= after);
    assert forall|j: int| 0 <= j < n implies #[trigger] before[j] != c by {}
    lemma_find_is(before, c, n);
}

} // verus!
