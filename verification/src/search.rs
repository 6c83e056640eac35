//! Prefixes and suffixes, texts within texts, replacing, ASCII case.

use crate::text;
use vstd::prelude::*;

verus! {

// ---------------------------------------------------------------------------
// Prefixes and suffixes
// ---------------------------------------------------------------------------

/// `t` starts with `p`.
pub open spec fn has_prefix(t: Seq<char>, p: Seq<char>) -> bool {
    p.len() <= t.len() && t.take(p.len() as int) == p
}

/// `t` ends with `p`.
pub open spec fn has_suffix(t: Seq<char>, p: Seq<char>) -> bool {
    p.len() <= t.len() && t.skip(t.len() - p.len()) == p
}

/// Does `p` stand in `t` at `at`?
fn matches_at(t: &Vec<char>, p: &Vec<char>, at: usize) -> (r: bool)
    requires
        at + p.len() <= t.len(),
    ensures
        r == occurs_at(t@, p@, at as int),
{
    for i in 0..p.len()
        invariant
            at + p.len() <= t.len(),
            forall|j: int| 0 <= j < i ==> t[at + j] == p[j],
    {
        if t[at + i] != p[i] {
            assert(t@.subrange(at as int, at + p@.len())[i as int] != p@[i as int]);
            return false;
        }
    }
    assert(t@.subrange(at as int, at + p@.len()) =~= p@);
    true
}

/// What follows `p` in `s`, if `s` starts with `p`.
pub fn strip_prefix<'a>(s: &'a str, p: &str) -> (r: Option<&'a str>)
    ensures
        match r {
            Some(rest) => has_prefix(s@, p@) && rest@ == s@.skip(p@.len() as int),
            None => !has_prefix(s@, p@),
        },
{
    let t = text::chars(s);
    let q = text::chars(p);
    if q.len() <= t.len() && matches_at(&t, &q, 0) {
        proof {
            assert(s@.take(p@.len() as int) =~= s@.subrange(0, p@.len() as int));
            assert(s@.skip(p@.len() as int) =~= s@.subrange(p@.len() as int, s@.len() as int));
        }
        Some(s.substring_char(q.len(), t.len()))
    } else {
        proof {
            if p@.len() <= s@.len() {
                assert(s@.take(p@.len() as int) =~= s@.subrange(0, p@.len() as int));
            }
        }
        None
    }
}

/// `t` with every `p` at its end taken off.
pub open spec fn without_suffixes(t: Seq<char>, p: Seq<char>) -> Seq<char>
    decreases t.len(),
{
    if p.len() > 0 && has_suffix(t, p) {
        without_suffixes(t.take(t.len() - p.len()), p)
    } else {
        t
    }
}

/// `s` with every `p` at its end taken off.
pub fn trim_end_matches<'a>(s: &'a str, p: &str) -> (r: &'a str)
    ensures
        r@ == without_suffixes(s@, p@),
{
    let t = text::chars(s);
    let q = text::chars(p);
    let mut n: usize = t.len();
    proof {
        assert(s@.take(n as int) =~= s@);
    }
    while q.len() > 0 && q.len() <= n && matches_at(&t, &q, n - q.len())
        invariant
            t@ == s@,
            q@ == p@,
            n <= t.len(),
            without_suffixes(s@.take(n as int), p@) == without_suffixes(s@, p@),
        decreases n,
    {
        proof {
            let cut = s@.take(n as int);
            assert(cut.skip(n - p@.len()) =~= s@.subrange(n - p@.len(), n as int));
            assert(cut.take(n - p@.len()) =~= s@.take(n - p@.len()));
        }
        n = n - q.len();
    }
    let r = s.substring_char(0, n);
    proof {
        let cut = s@.take(n as int);
        assert(r@ =~= cut);
        if p@.len() <= n {
            assert(cut.skip(n - p@.len()) =~= s@.subrange(n - p@.len(), n as int));
        }
    }
    r
}

/// `t` with every `c` at its front taken off.
pub open spec fn without_leading(t: Seq<char>, c: char) -> Seq<char>
    decreases t.len(),
{
    if t.len() > 0 && t[0] == c {
        without_leading(t.drop_first(), c)
    } else {
        t
    }
}

/// `t` with every `c` at its end taken off.
pub open spec fn without_trailing(t: Seq<char>, c: char) -> Seq<char>
    decreases t.len(),
{
    if t.len() > 0 && t.last() == c {
        without_trailing(t.drop_last(), c)
    } else {
        t
    }
}

/// `s` with every `c` at its end taken off.
pub fn trim_end_char<'a>(s: &'a str, c: char) -> (r: &'a str)
    ensures
        r@ == without_trailing(s@, c),
{
    let t = text::chars(s);
    let mut n: usize = t.len();
    proof {
        assert(s@.take(n as int) =~= s@);
    }
    while n > 0 && t[n - 1] == c
        invariant
            t@ == s@,
            n <= t.len(),
            without_trailing(s@.take(n as int), c) == without_trailing(s@, c),
        decreases n,
    {
        proof {
            assert(s@.take(n as int).drop_last() =~= s@.take(n - 1));
        }
        n = n - 1;
    }
    let r = s.substring_char(0, n);
    proof {
        assert(r@ =~= s@.take(n as int));
    }
    r
}

/// `s` with every `c` at its two ends taken off.
pub fn trim_matches<'a>(s: &'a str, c: char) -> (r: &'a str)
    ensures
        r@ == without_trailing(without_leading(s@, c), c),
{
    let t = text::chars(s);
    let n = t.len();
    let mut a: usize = 0;
    proof {
        assert(s@.skip(0) =~= s@);
    }
    while a < n && t[a] == c
        invariant
            t@ == s@,
            n == t.len(),
            a <= n,
            without_leading(s@.skip(a as int), c) == without_leading(s@, c),
        decreases n - a,
    {
        proof {
            assert(s@.skip(a as int).drop_first() =~= s@.skip(a + 1));
        }
        a = a + 1;
    }
    let rest = s.substring_char(a, n);
    proof {
        assert(rest@ =~= s@.skip(a as int));
    }
    trim_end_char(rest, c)
}

// ---------------------------------------------------------------------------
// Texts within texts
// ---------------------------------------------------------------------------

/// `p` stands in `t` at `i`.
pub open spec fn occurs_at(t: Seq<char>, p: Seq<char>, i: int) -> bool {
    0 <= i && i + p.len() <= t.len() && t.subrange(i, i + p.len()) == p
}

/// `p` stands somewhere in `t`.
pub open spec fn occurs(t: Seq<char>, p: Seq<char>) -> bool {
    exists|i: int| occurs_at(t, p, i)
}

/// `p` stands in `t` at `i` and nowhere before.
pub open spec fn first_at(t: Seq<char>, p: Seq<char>, i: int) -> bool {
    occurs_at(t, p, i) && forall|j: int| 0 <= j < i ==> !occurs_at(t, p, j)
}

/// Where `p` first stands in `s`.
fn first_occurrence(s: &str, p: &str) -> (r: Option<usize>)
    ensures
        match r {
            Some(i) => first_at(s@, p@, i as int),
            None => !occurs(s@, p@),
        },
{
    let t = text::chars(s);
    let q = text::chars(p);
    if q.len() > t.len() {
        return None;
    }
    let last: usize = t.len() - q.len();
    let mut i: usize = 0;
    loop
        invariant
            t@ == s@,
            q@ == p@,
            last + q.len() == t.len(),
            i <= last,
            forall|j: int| 0 <= j < i ==> !occurs_at(s@, p@, j),
        decreases last - i,
    {
        if matches_at(&t, &q, i) {
            return Some(i);
        }
        if i == last {
            return None;
        }
        i = i + 1;
    }
}

/// Does `p` stand somewhere in `s`?
pub fn contains(s: &str, p: &str) -> (r: bool)
    ensures
        r == occurs(s@, p@),
{
    first_occurrence(s, p).is_some()
}

/// `t` with its first `from`, if it has one, replaced by `to`.
pub open spec fn first_replaced(t: Seq<char>, from: Seq<char>, to: Seq<char>) -> Seq<char> {
    if occurs(t, from) {
        let i = choose|i: int| first_at(t, from, i);
        t.take(i) + to + t.skip(i + from.len())
    } else {
        t
    }
}

/// `s` with its first `from`, if it has one, replaced by `to`.
pub fn replace_first(s: &str, from: &str, to: &str) -> (r: String)
    ensures
        r@ == first_replaced(s@, from@, to@),
{
    match first_occurrence(s, from) {
        None => s.to_string(),
        Some(i) => {
            let n = s.unicode_len();
            let m = from.unicode_len();
            let mut r = s.substring_char(0, i).to_string();
            r.append(to);
            r.append(s.substring_char(i + m, n));
            proof {
                let k = choose|k: int| first_at(s@, from@, k);
                assert(first_at(s@, from@, k));
                assert(k == i) by {
                    if k < i {
                        assert(!occurs_at(s@, from@, k));
                    }
                    if i < k {
                        assert(!occurs_at(s@, from@, i as int));
                    }
                }
                assert(r@ =~= s@.take(k) + to@ + s@.skip(k + from@.len()));
            }
            r
        },
    }
}

/// `t` with every `c` replaced by `to`.
pub open spec fn all_replaced(t: Seq<char>, c: char, to: Seq<char>) -> Seq<char>
    decreases t.len(),
{
    if t.len() == 0 {
        t
    } else {
        all_replaced(t.drop_last(), c, to) + (if t.last() == c {
            to
        } else {
            seq![t.last()]
        })
    }
}

/// `s` with every `c` replaced by `to`.
pub fn replace_char(s: &str, c: char, to: &str) -> (r: String)
    ensures
        r@ == all_replaced(s@, c, to@),
{
    let t = text::chars(s);
    let mut r = String::new();
    for i in 0..t.len()
        invariant
            t@ == s@,
            r@ == all_replaced(s@.take(i as int), c, to@),
    {
        proof {
            assert(s@.take(i + 1).drop_last() =~= s@.take(i as int));
        }
        if t[i] == c {
            r.append(to);
        } else {
            let one = s.substring_char(i, i + 1);
            proof {
                assert(one@ =~= seq![s@[i as int]]);
            }
            r.append(one);
        }
    }
    proof {
        assert(s@.take(s@.len() as int) =~= s@);
    }
    r
}

/// The items of `v` in order, with `sep` between each and the next.
pub open spec fn joined(v: Seq<Seq<char>>, sep: Seq<char>) -> Seq<char>
    decreases v.len(),
{
    if v.len() == 0 {
        seq![]
    } else if v.len() == 1 {
        v[0]
    } else {
        joined(v.drop_last(), sep) + sep + v.last()
    }
}

/// Joins the items of `v` from `from` on, with `sep` in between.
pub fn join_from(v: &Vec<&str>, from: usize, sep: &str) -> (r: String)
    requires
        from <= v.len(),
    ensures
        r@ == joined(text::slices(v@).skip(from as int), sep@),
{
    let ghost all = text::slices(v@).skip(from as int);
    let mut r = String::new();
    for i in from..v.len()
        invariant
            from <= v.len(),
            all == text::slices(v@).skip(from as int),
            r@ == joined(all.take(i - from), sep@),
    {
        proof {
            assert(all.take(i + 1 - from).drop_last() =~= all.take(i - from));
        }
        if i > from {
            r.append(sep);
        }
        r.append(v[i]);
        proof {
            assert(all[i - from] == v[i as int]@);
            assert(r@ =~= joined(all.take(i + 1 - from), sep@));
        }
    }
    proof {
        assert(all.take(v.len() - from) =~= all);
    }
    r
}

// ---------------------------------------------------------------------------
// Case
// ---------------------------------------------------------------------------

/// `c` with an ASCII capital made small.
pub open spec fn ascii_lower(c: char) -> char {
    if 'A' <= c <= 'Z' {
        ((c as u32 + 32) as u32) as char
    } else {
        c
    }
}

/// Every character of `t` with ASCII capitals made small.
pub open spec fn ascii_lowered(t: Seq<char>) -> Seq<char> {
    Seq::new(t.len(), |i: int| ascii_lower(t[i]))
}

/// `t` in lower case, as Unicode defines it.
pub uninterp spec fn lowercase(t: Seq<char>) -> Seq<char>;

/// [`str::to_lowercase`]: the result depends on the text alone, and of ASCII text
/// just the capitals change. What becomes of other letters is not stated.
pub assume_specification[ str::to_lowercase ](s: &str) -> (r: String)
    ensures
        r@ == lowercase(s@),
        vstd::utf8::is_ascii_chars(s@) ==> r@ == ascii_lowered(s@),
;

/// `t` in lower case: of ASCII text just the capitals change.
pub open spec fn lowered(t: Seq<char>) -> Seq<char> {
    if vstd::utf8::is_ascii_chars(t) {
        ascii_lowered(t)
    } else {
        lowercase(t)
    }
}

/// `s` in lower case.
pub fn lower(s: &str) -> (r: String)
    ensures
        r@ == lowered(s@),
{
    s.to_lowercase()
}

/// The two texts differ at most in the case of ASCII letters.
pub open spec fn same_ignoring_case(a: Seq<char>, b: Seq<char>) -> bool {
    ascii_lowered(a) == ascii_lowered(b)
}

fn lower_char(c: char) -> (r: u32)
    ensures
        r == ascii_lower(c) as u32,
{
    let u: u32 = c as u32;
    if 0x41 <= u && u <= 0x5a {
        u + 32
    } else {
        u
    }
}

/// Do the two texts differ at most in the case of ASCII letters?
pub fn equal_ignoring_case(a: &str, b: &str) -> (r: bool)
    ensures
        r == same_ignoring_case(a@, b@),
{
    let x = text::chars(a);
    let y = text::chars(b);
    let ghost p = ascii_lowered(a@);
    let ghost q = ascii_lowered(b@);
    if x.len() != y.len() {
        assert(p.len() != q.len());
        return false;
    }
    for i in 0..x.len()
        invariant
            x.len() == y.len(),
            x@ == a@,
            y@ == b@,
            p == ascii_lowered(a@),
            q == ascii_lowered(b@),
            forall|j: int| 0 <= j < i ==> p[j] == q[j],
    {
        if lower_char(x[i]) != lower_char(y[i]) {
            assert(p[i as int] != q[i as int]);
            return false;
        }
        assert(p[i as int] == q[i as int]);
    }
    assert(p =~= q);
    true
}

// ---------------------------------------------------------------------------
// Laws
// ---------------------------------------------------------------------------

/// Replacing the first of a text leaves what is before and after it as it was; a
/// text that does not hold it stays as it is.
pub proof fn law_only_the_first_is_replaced(
    before: Seq<char>,
    from: Seq<char>,
    to: Seq<char>,
    after: Seq<char>,
)
    requires
        forall|j: int|
            0 <= j < before.len() ==> (before + from + after).subrange(
                j,
                #[trigger] (j + from.len()),
            ) != from,
    ensures
        first_replaced(before + from + after, from, to) == before + to + after,
{
    let t = before + from + after;
    let n = before.len() as int;
    assert(t.subrange(n, n + from.len()) =~= from);
    assert(occurs_at(t, from, n));
    assert forall|j: int| 0 <= j < n implies !occurs_at(t, from, j) by {
        assert(t.subrange(j, j + from.len()) != from);
    }
    assert(first_at(t, from, n));
    let i = choose|i: int| first_at(t, from, i);
    assert(i == n) by {
        if i < n {
            assert(!occurs_at(t, from, i));
        }
        if n < i {
            assert(!occurs_at(t, from, n));
        }
    }
    assert(t.take(n) =~= before);
    assert(t.skip(n + from.len()) =~= after);
}

/// A text holds another just when it is made of something, the other, and
/// something more; without it nothing is replaced.
pub proof fn law_held_texts_stand_between(t: Seq<char>, p: Seq<char>, to: Seq<char>)
    ensures
        occurs(t, p) <==> exists|a: Seq<char>, b: Seq<char>| t == #[trigger] (a + p + b),
        !occurs(t, p) ==> first_replaced(t, p, to) == t,
{
    if occurs(t, p) {
        let i = choose|i: int| occurs_at(t, p, i);
        let a = t.take(i);
        let b = t.skip(i + p.len());
        assert(t =~= a + p + b);
    }
    if exists|a: Seq<char>, b: Seq<char>| t == #[trigger] (a + p + b) {
        let (a, b) = choose|a: Seq<char>, b: Seq<char>| t == #[trigger] (a + p + b);
        assert(t.subrange(a.len() as int, (a.len() + p.len()) as int) =~= p);
        assert(occurs_at(t, p, a.len() as int));
    }
}

/// Each of the characters is replaced where it stands, and nothing else is.
pub proof fn law_each_character_is_replaced(a: Seq<char>, c: char, b: Seq<char>, to: Seq<char>)
    ensures
        all_replaced(a + seq![c] + b, c, to) == all_replaced(a, c, to) + to + all_replaced(
            b,
            c,
            to,
        ),
        !a.contains(c) ==> all_replaced(a, c, to) == a,
    decreases a.len() + b.len(),
{
    let t = a + seq![c] + b;
    if b.len() == 0 {
        assert(t.drop_last() =~= a);
        assert(all_replaced(b, c, to) =~= seq![]);
        assert(all_replaced(a, c, to) + to + all_replaced(b, c, to) =~= all_replaced(a, c, to)
            + to);
    } else {
        law_each_character_is_replaced(a, c, b.drop_last(), to);
        assert(t.drop_last() =~= a + seq![c] + b.drop_last());
        assert(t.last() == b.last());
        let last = if b.last() == c {
            to
        } else {
            seq![b.last()]
        };
        assert(all_replaced(t, c, to) =~= all_replaced(a, c, to) + to + all_replaced(b, c, to));
    }
    if a.len() > 0 && !a.contains(c) {
        let front = a.drop_last();
        assert(!front.contains(c)) by {
            if front.contains(c) {
                let j = choose|j: int| 0 <= j < front.len() && front[j] == c;
                assert(a[j] == c);
            }
        }
        assert(a.last() == a[a.len() - 1]);
        law_each_character_is_replaced(front, c, seq![], to);
        assert(all_replaced(a, c, to) =~= a);
    }
}

/// Every copy of a suffix comes off the end, and what does not end with it stays.
pub proof fn law_suffixes_come_off(t: Seq<char>, p: Seq<char>)
    requires
        p.len() > 0,
    ensures
        without_suffixes(t + p, p) == without_suffixes(t, p),
        !(exists|a: Seq<char>| t == #[trigger] (a + p)) ==> without_suffixes(t, p) == t,
{
    let all = t + p;
    assert(all.skip(all.len() - p.len()) =~= p);
    assert(all.take(all.len() - p.len()) =~= t);
    if has_suffix(t, p) {
        let a = t.take(t.len() - p.len());
        assert(t =~= a + p);
    }
}

/// Every copy of a character comes off the two ends, and no other character does.
pub proof fn law_characters_come_off_the_ends(t: Seq<char>, c: char)
    ensures
        without_trailing(t.push(c), c) == without_trailing(t, c),
        without_leading(seq![c] + t, c) == without_leading(t, c),
        t.len() > 0 && t.last() != c ==> without_trailing(t, c) == t,
        t.len() > 0 && t[0] != c ==> without_leading(t, c) == t,
        without_trailing(seq![], c) == Seq::<char>::empty(),
        without_leading(seq![], c) == Seq::<char>::empty(),
{
    assert(t.push(c).drop_last() =~= t);
    assert((seq![c] + t).drop_first() =~= t);
}

/// Ignoring case, two texts are the same just when they have the same length and
/// at each place the same character or an ASCII letter and its other case.
pub proof fn law_case_is_that_of_ascii_letters(a: Seq<char>, b: Seq<char>)
    ensures
        same_ignoring_case(a, b) <==> a.len() == b.len() && forall|i: int|
            0 <= i < a.len() ==> {
                ||| #[trigger] a[i] == b[i]
                ||| 'A' <= a[i] <= 'Z' && b[i] as u32 == a[i] as u32 + 32
                ||| 'A' <= b[i] <= 'Z' && a[i] as u32 == b[i] as u32 + 32
            },
{
    let p = ascii_lowered(a);
    let q = ascii_lowered(b);
    if same_ignoring_case(a, b) {
        assert(p.len() == q.len());
        assert forall|i: int| 0 <= i < a.len() implies {
            ||| #[trigger] a[i] == b[i]
            ||| 'A' <= a[i] <= 'Z' && b[i] as u32 == a[i] as u32 + 32
            ||| 'A' <= b[i] <= 'Z' && a[i] as u32 == b[i] as u32 + 32
        } by {
            assert(p[i] == ascii_lower(a[i]));
            assert(q[i] == ascii_lower(b[i]));
        }
    }
    if a.len() == b.len() && forall|i: int|
        0 <= i < a.len() ==> {
            ||| #[trigger] a[i] == b[i]
            ||| 'A' <= a[i] <= 'Z' && b[i] as u32 == a[i] as u32 + 32
            ||| 'A' <= b[i] <= 'Z' && a[i] as u32 == b[i] as u32 + 32
        } {
        assert forall|i: int| 0 <= i < p.len() implies p[i] == q[i] by {
            assert(p[i] == ascii_lower(a[i]));
            assert(q[i] == ascii_lower(b[i]));
        }
        assert(p =~= q);
    }
}

/// In lower case, ASCII text keeps its length and every character but the
/// capitals, which become the small letters.
pub proof fn law_lower_case_of_ascii(t: Seq<char>)
    requires
        forall|i: int| 0 <= i < t.len() ==> '\0' <= #[trigger] t[i] <= '\u{7f}',
    ensures
        lowered(t).len() == t.len(),
        forall|i: int|
            0 <= i < t.len() ==> (#[trigger] lowered(t)[i]) as u32 == (if 'A' <= t[i] <= 'Z' {
                t[i] as u32 + 32
            } else {
                t[i] as u32 as int
            }),
{
    assert(vstd::utf8::is_ascii_chars(t));
    assert forall|i: int| 0 <= i < t.len() implies (#[trigger] lowered(t)[i]) as u32 == (if 'A'
        <= t[i] <= 'Z' {
        t[i] as u32 + 32
    } else {
        t[i] as u32 as int
    }) by {
        assert(lowered(t)[i] == ascii_lower(t[i]));
    }
}

/// One item joined is that item, and every further one follows a separator.
pub proof fn law_joining_puts_separators_between(
    v: Seq<Seq<char>>,
    sep: Seq<char>,
    more: Seq<char>,
)
    ensures
        joined(seq![more], sep) == more,
        v.len() > 0 ==> joined(v.push(more), sep) == joined(v, sep) + sep + more,
{
    assert(v.push(more).drop_last() =~= v);
}

} // verus!
