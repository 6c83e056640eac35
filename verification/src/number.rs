//! Whole numbers as text.

use crate::text;
use vstd::prelude::*;

verus! {

// ---------------------------------------------------------------------------
// Writing
// ---------------------------------------------------------------------------

/// The decimal digit for `d`.
pub open spec fn digit(d: nat) -> char {
    ((d + 48) as u32) as char
}

/// `n` in decimal, without leading zeros.
pub open spec fn decimal(n: nat) -> Seq<char>
    decreases n,
{
    if n < 10 {
        seq![digit(n)]
    } else {
        decimal(n / 10).push(digit(n % 10))
    }
}

fn digit_text(d: u64) -> (r: &'static str)
    requires
        d < 10,
    ensures
        r@ == seq![digit(d as nat)],
{
    proof {
        reveal_strlit("0");
        reveal_strlit("1");
        reveal_strlit("2");
        reveal_strlit("3");
        reveal_strlit("4");
        reveal_strlit("5");
        reveal_strlit("6");
        reveal_strlit("7");
        reveal_strlit("8");
        reveal_strlit("9");
    }
    let r = match d {
        0 => "0",
        1 => "1",
        2 => "2",
        3 => "3",
        4 => "4",
        5 => "5",
        6 => "6",
        7 => "7",
        8 => "8",
        _ => "9",
    };
    assert(r@ =~= seq![digit(d as nat)]);
    r
}

/// `n` in decimal.
pub fn to_decimal(n: u64) -> (r: String)
    ensures
        r@ == decimal(n as nat),
    decreases n,
{
    if n < 10 {
        digit_text(n).to_string()
    } else {
        let mut r = to_decimal(n / 10);
        r.append(digit_text(n % 10));
        assert(r@ =~= decimal(n as nat));
        r
    }
}

// ---------------------------------------------------------------------------
// Reading
// ---------------------------------------------------------------------------

/// The value of `c` as a digit: `0` to `9`, then letters of either case.
pub open spec fn digit_value(c: char) -> Option<nat> {
    if '0' <= c <= '9' {
        Some((c as nat - 48) as nat)
    } else if 'a' <= c <= 'z' {
        Some((c as nat - 87) as nat)
    } else if 'A' <= c <= 'Z' {
        Some((c as nat - 55) as nat)
    } else {
        None
    }
}

/// The number that the digits of `t` write to base `radix`, if all are digits.
pub open spec fn digits_value(t: Seq<char>, radix: nat) -> Option<nat>
    decreases t.len(),
{
    if t.len() == 0 {
        Some(0)
    } else {
        match (digits_value(t.drop_last(), radix), digit_value(t.last())) {
            (Some(v), Some(d)) => if d < radix {
                Some(v * radix + d)
            } else {
                None
            },
            _ => None,
        }
    }
}

/// `t` without one plus sign in front.
pub open spec fn unsigned(t: Seq<char>) -> Seq<char> {
    if t.len() > 0 && t[0] == '+' {
        t.skip(1)
    } else {
        t
    }
}

/// The 32-bit number that `t` writes to base `radix`: one or more digits, with
/// at most a plus sign in front.
pub open spec fn number(t: Seq<char>, radix: nat) -> Option<u32> {
    if unsigned(t).len() == 0 {
        None
    } else {
        match digits_value(unsigned(t), radix) {
            Some(v) => if v <= u32::MAX {
                Some(v as u32)
            } else {
                None
            },
            None => None,
        }
    }
}

fn value_of(c: char) -> (r: Option<u32>)
    ensures
        match r {
            Some(d) => digit_value(c) == Some(d as nat) && d < 36,
            None => digit_value(c) is None,
        },
{
    let u: u32 = c as u32;
    if 0x30 <= u && u <= 0x39 {
        Some(u - 48)
    } else if 0x61 <= u && u <= 0x7a {
        Some(u - 87)
    } else if 0x41 <= u && u <= 0x5a {
        Some(u - 55)
    } else {
        None
    }
}

/// More digits do not make a number smaller, nor a text of digits out of one
/// that is none.
proof fn lemma_digits_grow(t: Seq<char>, n: int, radix: nat)
    requires
        0 <= n <= t.len(),
        radix > 0,
    ensures
        match (digits_value(t.take(n), radix), digits_value(t, radix)) {
            (Some(a), Some(b)) => a <= b,
            (None, Some(b)) => false,
            _ => true,
        },
    decreases t.len(),
{
    if n == t.len() {
        assert(t.take(n) =~= t);
    } else {
        lemma_digits_grow(t.drop_last(), n, radix);
        assert(t.drop_last().take(n) =~= t.take(n));
        match digits_value(t.drop_last(), radix) {
            Some(v) => {
                assert(v <= v * radix) by (nonlinear_arith)
                    requires
                        radix > 0,
                ;
            },
            None => {},
        }
    }
}

/// The number that `s` writes to base `radix`.
pub fn parse(s: &str, radix: u32) -> (r: Option<u32>)
    requires
        2 <= radix <= 36,
    ensures
        r == number(s@, radix as nat),
{
    let t = text::chars(s);
    let n = t.len();
    let start: usize = if n > 0 && t[0] == '+' {
        1
    } else {
        0
    };
    if start == n {
        return None;
    }
    let ghost all = unsigned(s@);
    proof {
        assert(all =~= s@.skip(start as int));
    }
    let mut value: u32 = 0;
    let mut i: usize = start;
    assert(all.take(0).len() == 0);
    while i < n
        invariant
            2 <= radix <= 36,
            t@ == s@,
            n == t.len(),
            start <= i <= n,
            start < n,
            all == unsigned(s@),
            all == s@.skip(start as int),
            digits_value(all.take(i - start), radix as nat) == Some(value as nat),
        decreases n - i,
    {
        let ghost next = all.take(i + 1 - start);
        proof {
            assert(next.drop_last() =~= all.take(i - start));
            assert(next.last() == t@[i as int]);
            lemma_digits_grow(all, i + 1 - start, radix as nat);
        }
        let d: u32 = match value_of(t[i]) {
            Some(d) => d,
            None => {
                return None;
            },
        };
        if d >= radix {
            return None;
        }
        assert(value as u64 * radix as u64 <= 0xffff_ffff * 36) by (nonlinear_arith)
            requires
                value <= 0xffff_ffff,
                radix <= 36,
        ;
        let wide: u64 = value as u64 * radix as u64;
        let wide: u64 = wide + d as u64;
        if wide > 0xffff_ffff {
            return None;
        }
        value = wide as u32;
        i = i + 1;
    }
    proof {
        assert(all.take(n - start) =~= all);
    }
    Some(value)
}

// ---------------------------------------------------------------------------
// Laws
// ---------------------------------------------------------------------------

/// What `decimal` writes has at least one character, and all are digits.
pub proof fn lemma_decimal_digits(n: nat)
    ensures
        decimal(n).len() > 0,
        forall|i: int| 0 <= i < decimal(n).len() ==> '0' <= #[trigger] decimal(n)[i] <= '9',
    decreases n,
{
    if n >= 10 {
        lemma_decimal_digits(n / 10);
    }
}

proof fn lemma_decimal_value(n: nat)
    ensures
        digits_value(decimal(n), 10) == Some(n),
    decreases n,
{
    let t = decimal(n);
    if n < 10 {
        assert(t.drop_last() =~= seq![]);
        assert(digits_value(t.drop_last(), 10) == Some(0nat));
        assert(digit_value(t.last()) == Some(n));
    } else {
        lemma_decimal_value(n / 10);
        assert(t.drop_last() =~= decimal(n / 10));
        assert(digit_value(t.last()) == Some(n % 10));
    }
}

/// Reading back a number written in decimal gives the number.
pub proof fn law_decimal_reads_back(n: u32)
    ensures
        number(decimal(n as nat), 10) == Some(n),
{
    lemma_decimal_digits(n as nat);
    lemma_decimal_value(n as nat);
}

/// Each digit more multiplies by the base and adds its value: ten for the digits
/// of a decimal number, and sixteen with letters of either case for a hexadecimal
/// one.
pub proof fn law_each_digit_counts(t: Seq<char>, c: char, v: u32)
    requires
        number(t, 10) == Some(v) || number(t, 16) == Some(v),
    ensures
        number(t, 10) == Some(v) && '0' <= c <= '9' && v * 10 + (c as u32 - 48) <= u32::MAX
            ==> number(t.push(c), 10) == Some((v * 10 + (c as u32 - 48)) as u32),
        number(t, 16) == Some(v) && '0' <= c <= '9' && v * 16 + (c as u32 - 48) <= u32::MAX
            ==> number(t.push(c), 16) == Some((v * 16 + (c as u32 - 48)) as u32),
        number(t, 16) == Some(v) && 'a' <= c <= 'f' && v * 16 + (c as u32 - 87) <= u32::MAX
            ==> number(t.push(c), 16) == Some((v * 16 + (c as u32 - 87)) as u32),
        number(t, 16) == Some(v) && 'A' <= c <= 'F' && v * 16 + (c as u32 - 55) <= u32::MAX
            ==> number(t.push(c), 16) == Some((v * 16 + (c as u32 - 55)) as u32),
        number(t, 10) is Some && !('0' <= c <= '9') ==> number(t.push(c), 10) is None,
{
    let u = unsigned(t);
    assert(t.len() > 0);
    assert(unsigned(t.push(c)) =~= u.push(c));
    assert(u.push(c).drop_last() =~= u);
}

/// One digit alone is its value, in both bases.
pub proof fn law_one_digit_is_its_value(c: char)
    requires
        '0' <= c <= '9',
    ensures
        number(seq![c], 10) == Some((c as u32 - 48) as u32),
        number(seq![c], 16) == Some((c as u32 - 48) as u32),
        number(seq![], 10) is None,
{
    let t = seq![c];
    assert(t.drop_last() =~= seq![]);
    assert(digits_value(t.drop_last(), 10) == Some(0nat));
    assert(digits_value(t.drop_last(), 16) == Some(0nat));
    assert(unsigned(t) == t);
}

/// A number is written without leading zeros.
pub proof fn law_no_leading_zeros(n: nat)
    ensures
        n > 0 ==> decimal(n)[0] != '0',
        decimal(0) == seq!['0'],
    decreases n,
{
    lemma_decimal_digits(n);
    if n >= 10 {
        law_no_leading_zeros(n / 10);
        lemma_decimal_digits(n / 10);
    }
}

} // verus!
