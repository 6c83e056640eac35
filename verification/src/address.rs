//! Network addresses, and names for them.

use crate::assoc;
use crate::number;
use vstd::prelude::*;

verus! {

/// An IPv4 address `a.b.c.d`.
#[derive(Copy, Clone, PartialEq, Eq, Structural, Debug, Hash)]
pub struct Ipv4Addr {
    pub a: u8,
    pub b: u8,
    pub c: u8,
    pub d: u8,
}

/// An address of either family. Only IPv4 is used.
#[derive(Copy, Clone, PartialEq, Eq, Structural, Debug)]
pub enum IpAddr {
    V4(Ipv4Addr),
    V6,
}

/// `ip` in dotted decimal.
pub open spec fn dotted(ip: Ipv4Addr) -> Seq<char> {
    number::decimal(ip.a as nat) + seq!['.'] + number::decimal(ip.b as nat) + seq!['.']
        + number::decimal(ip.c as nat) + seq!['.'] + number::decimal(ip.d as nat)
}

/// The address as one number, by which addresses are ordered.
#[verifier::opaque]
pub open spec fn rank(ip: Ipv4Addr) -> int {
    ip.a * 0x100_0000 + ip.b * 0x1_0000 + ip.c * 0x100 + ip.d
}

impl Ipv4Addr {
    /// The address `a.b.c.d`.
    pub fn new(a: u8, b: u8, c: u8, d: u8) -> (r: Ipv4Addr)
        ensures
            r == (Ipv4Addr { a, b, c, d }),
    {
        Ipv4Addr { a, b, c, d }
    }

    /// The four parts of the address.
    pub fn octets(&self) -> (r: [u8; 4])
        ensures
            r@ == seq![self.a, self.b, self.c, self.d],
    {
        [self.a, self.b, self.c, self.d]
    }

    /// Is this one of the self-assigned addresses `169.254.x.x`?
    pub fn is_link_local(&self) -> (r: bool)
        ensures
            r == (self.a == 169 && self.b == 254),
    {
        self.a == 169 && self.b == 254
    }

    /// Is this one of the addresses `127.x.x.x` of the machine itself?
    pub fn is_loopback(&self) -> (r: bool)
        ensures
            r == (self.a == 127),
    {
        self.a == 127
    }

    /// The address in dotted decimal.
    pub fn to_string(&self) -> (r: String)
        ensures
            r@ == dotted(*self),
    {
        proof {
            reveal_strlit(".");
            assert("."@ =~= seq!['.']);
        }
        let mut s = number::to_decimal(self.a as u64);
        s.append(".");
        s.append(number::to_decimal(self.b as u64).as_str());
        s.append(".");
        s.append(number::to_decimal(self.c as u64).as_str());
        s.append(".");
        s.append(number::to_decimal(self.d as u64).as_str());
        s
    }

    /// Does this address come before `other`?
    pub fn precedes(&self, other: &Ipv4Addr) -> (r: bool)
        ensures
            r == (rank(*self) < rank(*other)),
    {
        proof {
            reveal(rank);
        }
        let x: u32 = self.a as u32 * 0x100_0000 + self.b as u32 * 0x1_0000 + self.c as u32 * 0x100
            + self.d as u32;
        let y: u32 = other.a as u32 * 0x100_0000 + other.b as u32 * 0x1_0000 + other.c as u32
            * 0x100 + other.d as u32;
        x < y
    }
}

/// The IPv4 addresses of `s`, in order.
pub open spec fn v4s(s: Seq<IpAddr>) -> Seq<Ipv4Addr>
    decreases s.len(),
{
    if s.len() == 0 {
        seq![]
    } else {
        match s.last() {
            IpAddr::V4(ip) => v4s(s.drop_last()).push(ip),
            IpAddr::V6 => v4s(s.drop_last()),
        }
    }
}

/// Each item of `s` once, where it first stands.
pub open spec fn firsts<T>(s: Seq<T>) -> Seq<T>
    decreases s.len(),
{
    if s.len() == 0 {
        s
    } else {
        let before = firsts(s.drop_last());
        if before.contains(s.last()) {
            before
        } else {
            before.push(s.last())
        }
    }
}

/// Adds `ip` to `ips` unless it is there.
pub fn push_new(ips: &mut Vec<Ipv4Addr>, ip: Ipv4Addr)
    ensures
        final(ips)@ == (if old(ips)@.contains(ip) {
            old(ips)@
        } else {
            old(ips)@.push(ip)
        }),
{
    for i in 0..ips.len()
        invariant
            ips@ == old(ips)@,
            forall|j: int| 0 <= j < i ==> ips@[j] != ip,
    {
        if ips[i] == ip {
            assert(ips@[i as int] == ip);
            return ;
        }
    }
    ips.push(ip);
}

/// Keeping the first of each item keeps the items, each once.
pub proof fn lemma_firsts<T>(s: Seq<T>)
    ensures
        firsts(s).no_duplicates(),
        forall|x: T| #[trigger] firsts(s).contains(x) <==> s.contains(x),
    decreases s.len(),
{
    if s.len() > 0 {
        let before = s.drop_last();
        let last = s.last();
        lemma_firsts(before);
        assert forall|x: T| #[trigger] firsts(s).contains(x) <==> s.contains(x) by {
            if s.contains(x) {
                let i = choose|i: int| 0 <= i < s.len() && s[i] == x;
                if i < before.len() {
                    assert(before[i] == x);
                    assert(firsts(before).contains(x));
                    let j = choose|j: int| 0 <= j < firsts(before).len() && firsts(before)[j] == x;
                    assert(firsts(s)[j] == x);
                } else if !firsts(before).contains(last) {
                    assert(firsts(s)[firsts(before).len() as int] == x);
                }
            }
            if firsts(s).contains(x) {
                let j = choose|j: int| 0 <= j < firsts(s).len() && firsts(s)[j] == x;
                if j < firsts(before).len() {
                    assert(firsts(before)[j] == x);
                    assert(firsts(before).contains(x));
                    let i = choose|i: int| 0 <= i < before.len() && before[i] == x;
                    assert(s[i] == x);
                } else {
                    assert(s[s.len() - 1] == x);
                }
            }
        }
    }
}

// ---------------------------------------------------------------------------
// Names
// ---------------------------------------------------------------------------

/// Names for addresses, at most one for each.
pub struct NameTable {
    entries: Vec<(Ipv4Addr, String)>,
}

impl View for NameTable {
    type V = Map<Ipv4Addr, Seq<char>>;

    open spec fn view(&self) -> Map<Ipv4Addr, Seq<char>> {
        assoc::map_of(self.entries())
    }
}

impl NameTable {
    /// The addresses and their names, in the order in which they came.
    pub closed spec fn entries(&self) -> Seq<(Ipv4Addr, Seq<char>)> {
        Seq::new(self.entries.len() as nat, |i: int| (self.entries[i].0, self.entries[i].1@))
    }

    #[verifier::type_invariant]
    spec fn well_formed(self) -> bool {
        assoc::distinct_keys(self.entries())
    }

    /// A table without names.
    pub fn new() -> (r: NameTable)
        ensures
            r@ == Map::<Ipv4Addr, Seq<char>>::empty(),
    {
        let r = NameTable { entries: Vec::new() };
        assert(r@ =~= Map::<Ipv4Addr, Seq<char>>::empty());
        r
    }

    fn position(&self, ip: Ipv4Addr) -> (r: usize)
        ensures
            r <= self.entries().len(),
            forall|j: int| 0 <= j < r ==> self.entries()[j].0 != ip,
            r < self.entries().len() ==> self.entries()[r as int].0 == ip,
    {
        let n = self.entries.len();
        let mut i: usize = 0;
        while i < n
            invariant
                n == self.entries.len(),
                i <= n,
                forall|j: int| 0 <= j < i ==> self.entries()[j].0 != ip,
            decreases n - i,
        {
            if self.entries[i].0 == ip {
                return i;
            }
            i = i + 1;
        }
        n
    }

    /// The name for `ip`.
    pub fn get(&self, ip: Ipv4Addr) -> (r: Option<&str>)
        ensures
            match r {
                Some(v) => self@.contains_key(ip) && v@ == self@[ip],
                None => !self@.contains_key(ip),
            },
    {
        proof {
            use_type_invariant(self);
        }
        let i = self.position(ip);
        if i < self.entries.len() {
            proof {
                assoc::lemma_map_of(self.entries(), i as int);
            }
            Some(self.entries[i].1.as_str())
        } else {
            None
        }
    }

    /// Gives `ip` the name `name` unless it has one.
    pub fn add(&mut self, ip: Ipv4Addr, name: &str)
        ensures
            final(self)@ == (if old(self)@.contains_key(ip) {
                old(self)@
            } else {
                old(self)@.insert(ip, name@)
            }),
    {
        proof {
            use_type_invariant(&*self);
        }
        let i = self.position(ip);
        let ghost before = self.entries();
        if i < self.entries.len() {
            proof {
                assoc::lemma_map_of(before, i as int);
            }
            return ;
        }
        let mut entries: Vec<(Ipv4Addr, String)> = Vec::new();
        std::mem::swap(&mut entries, &mut self.entries);
        entries.push((ip, name.to_string()));
        proof {
            assoc::lemma_map_of_push(before, ip, name@);
            assert(NameTable { entries }.entries() =~= before.push((ip, name@)));
        }
        self.entries = entries;
    }
}

// ---------------------------------------------------------------------------
// Laws
// ---------------------------------------------------------------------------

/// Addresses with the same rank are the same.
pub proof fn lemma_rank_injective(x: Ipv4Addr, y: Ipv4Addr)
    requires
        rank(x) == rank(y),
    ensures
        x == y,
{
    reveal(rank);
    assert(0 <= x.b * 0x1_0000 + x.c * 0x100 + x.d < 0x100_0000);
    assert(0 <= y.b * 0x1_0000 + y.c * 0x100 + y.d < 0x100_0000);
    assert(x.a == y.a);
    assert(0 <= x.c * 0x100 + x.d < 0x1_0000);
    assert(0 <= y.c * 0x100 + y.d < 0x1_0000);
    assert(x.b == y.b);
    assert(x.c == y.c);
}

/// The number `n`, a dot and `rest`.
spec fn dot(n: u8, rest: Seq<char>) -> Seq<char> {
    number::decimal(n as nat) + seq!['.'] + rest
}

proof fn lemma_decimal_injective(x: u8, y: u8)
    requires
        number::decimal(x as nat) == number::decimal(y as nat),
    ensures
        x == y,
{
    number::law_decimal_reads_back(x as u32);
    number::law_decimal_reads_back(y as u32);
}

proof fn lemma_dot_splits(x: u8, y: u8, r: Seq<char>, s: Seq<char>)
    requires
        dot(x, r) == dot(y, s),
    ensures
        x == y,
        r == s,
{
    let p = number::decimal(x as nat);
    let q = number::decimal(y as nat);
    let t = dot(x, r);
    let u = dot(y, s);
    number::lemma_decimal_digits(x as nat);
    number::lemma_decimal_digits(y as nat);
    assert forall|j: int| 0 <= j < p.len() implies #[trigger] t[j] != '.' by {
        assert(t[j] == p[j]);
    }
    assert forall|j: int| 0 <= j < q.len() implies #[trigger] u[j] != '.' by {
        assert(u[j] == q[j]);
    }
    assert(t[p.len() as int] == '.');
    assert(u[q.len() as int] == '.');
    assert(p.len() == q.len());
    assert(p =~= t.take(p.len() as int));
    assert(q =~= u.take(q.len() as int));
    assert(r =~= t.skip(p.len() as int + 1));
    assert(s =~= u.skip(q.len() as int + 1));
    lemma_decimal_injective(x, y);
}

proof fn lemma_dotted(ip: Ipv4Addr)
    ensures
        dotted(ip) == dot(ip.a, dot(ip.b, dot(ip.c, number::decimal(ip.d as nat)))),
{
    let b = number::decimal(ip.b as nat);
    let c = number::decimal(ip.c as nat);
    let d = number::decimal(ip.d as nat);
    lemma_regroup(number::decimal(ip.a as nat), b, c, d, seq!['.']);
}

proof fn lemma_regroup(a: Seq<char>, b: Seq<char>, c: Seq<char>, d: Seq<char>, e: Seq<char>)
    ensures
        a + e + b + e + c + e + d == a + e + (b + e + (c + e + d)),
{
    assert(a + e + b + e + c + e + d =~= a + e + (b + e + (c + e + d)));
}

/// Different addresses have different texts.
pub proof fn law_text_tells_addresses_apart(x: Ipv4Addr, y: Ipv4Addr)
    requires
        dotted(x) == dotted(y),
    ensures
        x == y,
{
    lemma_dotted(x);
    lemma_dotted(y);
    let xd = number::decimal(x.d as nat);
    let yd = number::decimal(y.d as nat);
    lemma_dot_splits(x.a, y.a, dot(x.b, dot(x.c, xd)), dot(y.b, dot(y.c, yd)));
    lemma_dot_splits(x.b, y.b, dot(x.c, xd), dot(y.c, yd));
    lemma_dot_splits(x.c, y.c, xd, yd);
    lemma_decimal_injective(x.d, y.d);
}

/// The text of an address is four numbers with dots in between, and each number
/// reads back as its octet.
pub proof fn law_text_holds_the_octets(ip: Ipv4Addr)
    ensures
        exists|a: Seq<char>, b: Seq<char>, c: Seq<char>, d: Seq<char>|
            dotted(ip) == #[trigger] (a + seq!['.'] + b + seq!['.'] + c + seq!['.'] + d)
                && number::number(a, 10) == Some(ip.a as u32) && number::number(b, 10) == Some(
                ip.b as u32,
            ) && number::number(c, 10) == Some(ip.c as u32) && number::number(d, 10) == Some(
                ip.d as u32,
            ),
        forall|i: int|
            0 <= i < dotted(ip).len() ==> #[trigger] dotted(ip)[i] == '.' || '0' <= dotted(ip)[i]
                <= '9',
{
    let a = number::decimal(ip.a as nat);
    let b = number::decimal(ip.b as nat);
    let c = number::decimal(ip.c as nat);
    let d = number::decimal(ip.d as nat);
    number::law_decimal_reads_back(ip.a as u32);
    number::law_decimal_reads_back(ip.b as u32);
    number::law_decimal_reads_back(ip.c as u32);
    number::law_decimal_reads_back(ip.d as u32);
    number::lemma_decimal_digits(ip.a as nat);
    number::lemma_decimal_digits(ip.b as nat);
    number::lemma_decimal_digits(ip.c as nat);
    number::lemma_decimal_digits(ip.d as nat);
    lemma_digits_and_dots(a, b, c, d);
    assert(dotted(ip) == a + seq!['.'] + b + seq!['.'] + c + seq!['.'] + d);
}

spec fn digits_and_dots(t: Seq<char>) -> bool {
    forall|i: int| 0 <= i < t.len() ==> #[trigger] t[i] == '.' || '0' <= t[i] <= '9'
}

proof fn lemma_digits_and_dots_sum(a: Seq<char>, b: Seq<char>)
    requires
        digits_and_dots(a),
        digits_and_dots(b),
    ensures
        digits_and_dots(a + b),
{
    let t = a + b;
    assert forall|i: int| 0 <= i < t.len() implies #[trigger] t[i] == '.' || '0' <= t[i]
        <= '9' by {
        if i < a.len() {
            assert(t[i] == a[i]);
        } else {
            assert(t[i] == b[i - a.len()]);
        }
    }
}

proof fn lemma_digits_and_dots(a: Seq<char>, b: Seq<char>, c: Seq<char>, d: Seq<char>)
    requires
        digits_and_dots(a),
        digits_and_dots(b),
        digits_and_dots(c),
        digits_and_dots(d),
    ensures
        digits_and_dots(a + seq!['.'] + b + seq!['.'] + c + seq!['.'] + d),
{
    let e = seq!['.'];
    lemma_digits_and_dots_sum(a, e);
    lemma_digits_and_dots_sum(a + e, b);
    lemma_digits_and_dots_sum(a + e + b, e);
    lemma_digits_and_dots_sum(a + e + b + e, c);
    lemma_digits_and_dots_sum(a + e + b + e + c, e);
    lemma_digits_and_dots_sum(a + e + b + e + c + e, d);
}

/// Addresses are ordered by their first octet, then by the second, the third and
/// the fourth.
pub proof fn law_addresses_are_ordered_by_octets(x: Ipv4Addr, y: Ipv4Addr)
    ensures
        rank(x) < rank(y) <==> {
            ||| x.a < y.a
            ||| x.a == y.a && x.b < y.b
            ||| x.a == y.a && x.b == y.b && x.c < y.c
            ||| x.a == y.a && x.b == y.b && x.c == y.c && x.d < y.d
        },
{
    reveal(rank);
    let xb: int = x.b * 0x1_0000 + x.c * 0x100 + x.d;
    let yb: int = y.b * 0x1_0000 + y.c * 0x100 + y.d;
    let xc: int = x.c * 0x100 + x.d;
    let yc: int = y.c * 0x100 + y.d;
    assert(0 <= xb < 0x100_0000);
    assert(0 <= yb < 0x100_0000);
    assert(0 <= xc < 0x1_0000);
    assert(0 <= yc < 0x1_0000);
    if x.a < y.a {
        assert(x.a + 1 <= y.a);
    } else if y.a < x.a {
        assert(y.a + 1 <= x.a);
    } else if x.b < y.b {
        assert(x.b + 1 <= y.b);
    } else if y.b < x.b {
        assert(y.b + 1 <= x.b);
    }
}

/// What is kept of a sequence stands in the order in which it first stood there.
pub proof fn law_first_places_keep_their_order<T>(s: Seq<T>, x: T)
    ensures
        firsts(s.push(x)) == (if s.contains(x) {
            firsts(s)
        } else {
            firsts(s).push(x)
        }),
        firsts(Seq::<T>::empty()) == Seq::<T>::empty(),
{
    assert(s.push(x).drop_last() =~= s);
    lemma_firsts(s);
}

/// The IPv4 addresses of a sequence are those that stand in it.
pub proof fn law_ipv4_addresses_are_picked(s: Seq<IpAddr>, ip: Ipv4Addr)
    ensures
        v4s(s).contains(ip) <==> s.contains(IpAddr::V4(ip)),
    decreases s.len(),
{
    if s.len() > 0 {
        let before = s.drop_last();
        law_ipv4_addresses_are_picked(before, ip);
        assert(s =~= before.push(s.last()));
        if s.contains(IpAddr::V4(ip)) {
            let i = choose|i: int| 0 <= i < s.len() && s[i] == IpAddr::V4(ip);
            if i < before.len() {
                assert(before[i] == IpAddr::V4(ip));
                let j = choose|j: int| 0 <= j < v4s(before).len() && v4s(before)[j] == ip;
                assert(v4s(s)[j] == ip);
            } else {
                assert(v4s(s).last() == ip);
                assert(v4s(s)[v4s(s).len() - 1] == ip);
            }
        }
        if v4s(s).contains(ip) {
            let j = choose|j: int| 0 <= j < v4s(s).len() && v4s(s)[j] == ip;
            if j < v4s(before).len() {
                assert(v4s(before)[j] == ip);
                let i = choose|i: int| 0 <= i < before.len() && before[i] == IpAddr::V4(ip);
                assert(s[i] == IpAddr::V4(ip));
            } else {
                assert(s[s.len() - 1] == IpAddr::V4(ip));
            }
        }
    }
}

} // verus!
