//! Decimal and hexadecimal digits: formatting and parsing of integers.

use vstd::prelude::*;

verus! {

/// The ASCII digit for `d` in `0..36` (lower-case letters past 9).
pub open spec fn digit_char(d: nat) -> char {
    if d < 10 {
        (('0' as u32) + d) as char
    } else {
        (('a' as u32) + d - 10) as char
    }
}

/// `n` written in base `b` with lower-case letters and no leading zeros.
pub open spec fn radix_text(n: nat, b: nat) -> Seq<char>
    recommends
        2 <= b <= 36,
    decreases n,
{
    if b < 2 || n < b {
        seq![digit_char(n)]
    } else {
        proof {
            assert(n / b < n) by (nonlinear_arith)
                requires
                    b >= 2,
                    n >= b,
            ;
        }
        radix_text(n / b, b).push(digit_char(n % b))
    }
}

/// `n` in decimal (`format!("{}", n)` for a non-negative integer).
pub open spec fn decimal(n: nat) -> Seq<char> {
    radix_text(n, 10)
}

/// `n` in lower-case hexadecimal (`format!("{:x}", n)`).
pub open spec fn hex_lower(n: nat) -> Seq<char> {
    radix_text(n, 16)
}

/// A signed integer in decimal, with a leading `-` when negative.
pub open spec fn signed_decimal(n: int) -> Seq<char> {
    if n < 0 {
        seq!['-'] + decimal((-n) as nat)
    } else {
        decimal(n as nat)
    }
}

/// The digit character for `d < 36`.
pub fn digit_char_exec(d: u64) -> (c: char)
    requires
        d < 36,
    ensures
        c == digit_char(d as nat),
{
    if d < 10 {
        ((48u8 + d as u8) as char)
    } else {
        ((97u8 + (d as u8) - 10) as char)
    }
}

/// `n` written in base `b`.
pub fn radix_text_exec(n: u64, b: u64) -> (r: Vec<char>)
    requires
        2 <= b <= 36,
    ensures
        r@ == radix_text(n as nat, b as nat),
    decreases n,
{
    if n < b {
        let mut v: Vec<char> = Vec::new();
        v.push(digit_char_exec(n));
        v
    } else {
        assert(n / b < n) by (nonlinear_arith)
            requires
                b >= 2,
                n >= b,
        ;
        let mut v = radix_text_exec(n / b, b);
        v.push(digit_char_exec(n % b));
        v
    }
}

/// `n` in decimal.
pub fn decimal_u64(n: u64) -> (r: Vec<char>)
    ensures
        r@ == decimal(n as nat),
{
    radix_text_exec(n, 10)
}

/// `n` in lower-case hexadecimal.
pub fn hex_lower_u64(n: u64) -> (r: Vec<char>)
    ensures
        r@ == hex_lower(n as nat),
{
    radix_text_exec(n, 16)
}

/// `n` in decimal, with a sign when negative.
pub fn decimal_i64(n: i64) -> (r: Vec<char>)
    ensures
        r@ == signed_decimal(n as int),
{
    if n < 0 {
        let m: u64 = if n == i64::MIN {
            9223372036854775808u64
        } else {
            (-n) as u64
        };
        let mut v: Vec<char> = Vec::new();
        v.push('-');
        let d = decimal_u64(m);
        let mut i: usize = 0;
        while i < d.len()
            invariant
                i <= d@.len(),
                v@ == seq!['-'] + d@.take(i as int),
            decreases d@.len() - i,
        {
            v.push(d[i]);
            i += 1;
        }
        assert(d@.take(d@.len() as int) == d@);
        v
    } else {
        decimal_u64(n as u64)
    }
}

/// `c` is an ASCII decimal digit.
pub open spec fn is_digit(c: char) -> bool {
    '0' <= c <= '9'
}

/// Every character of `s` is an ASCII digit.
pub open spec fn all_digits(s: Seq<char>) -> bool {
    forall|i: int| 0 <= i < s.len() ==> is_digit(#[trigger] s[i])
}

/// The value of a string of decimal digits.
pub open spec fn digits_value(s: Seq<char>) -> nat
    decreases s.len(),
{
    if s.len() == 0 {
        0
    } else {
        digits_value(s.drop_last()) * 10 + ((s.last() as u32) - ('0' as u32)) as nat
    }
}

/// `u32::from_str`: an optional `+`, then one or more digits, and a value that fits.
pub open spec fn parse_u32(s: Seq<char>) -> Option<u32> {
    let t = if s.len() > 0 && s[0] == '+' {
        s.drop_first()
    } else {
        s
    };
    if t.len() > 0 && all_digits(t) && digits_value(t) <= u32::MAX {
        Some(digits_value(t) as u32)
    } else {
        None
    }
}

/// Whether all characters of `s` are ASCII digits.
pub fn all_digits_exec(s: &[char]) -> (b: bool)
    ensures
        b == all_digits(s@),
{
    let mut i: usize = 0;
    while i < s.len()
        invariant
            i <= s@.len(),
            forall|j: int| 0 <= j < i ==> is_digit(#[trigger] s@[j]),
        decreases s@.len() - i,
    {
        if !('0' <= s[i] && s[i] <= '9') {
            assert(!is_digit(s@[i as int]));
            return false;
        }
        i += 1;
    }
    true
}

/// The value of the digit string `s[0..i]`, or `None` once it exceeds `limit`.
fn digits_value_bounded(s: &[char], limit: u64) -> (r: Option<u64>)
    requires
        all_digits(s@),
        limit <= u32::MAX,
    ensures
        match r {
            Some(v) => v == digits_value(s@) && v <= limit,
            None => digits_value(s@) > limit,
        },
{
    let mut v: u64 = 0;
    let mut i: usize = 0;
    while i < s.len()
        invariant
            i <= s@.len(),
            all_digits(s@),
            limit <= u32::MAX,
            v == digits_value(s@.take(i as int)),
            v <= limit,
        decreases s@.len() - i,
    {
        assert(s@.take(i + 1).drop_last() == s@.take(i as int));
        assert(is_digit(s@[i as int]));
        let d = (s[i] as u32 - '0' as u32) as u64;
        let next = v * 10 + d;
        if next > limit {
            proof {
                lemma_digits_value_monotone(s@, i + 1);
            }
            return None;
        }
        v = next;
        i += 1;
    }
    assert(s@.take(s@.len() as int) == s@);
    Some(v)
}

proof fn lemma_digits_value_monotone(s: Seq<char>, k: int)
    requires
        0 <= k <= s.len(),
        all_digits(s),
    ensures
        digits_value(s.take(k)) <= digits_value(s),
    decreases s.len(),
{
    if k < s.len() {
        assert(s.drop_last().take(k) == s.take(k));
        lemma_digits_value_monotone(s.drop_last(), k);
        assert(all_digits(s.drop_last()));
    } else {
        assert(s.take(k) == s);
    }
}

/// `u32::from_str`.
pub fn parse_u32_exec(s: &[char]) -> (r: Option<u32>)
    ensures
        r == parse_u32(s@),
{
    let start: usize = if s.len() > 0 && s[0] == '+' {
        1
    } else {
        0
    };
    let t = crate::text::slice_range(s, start, s.len());
    assert(start == 1 ==> t@ == s@.drop_first());
    assert(start == 0 ==> t@ == s@);
    if t.len() == 0 || !all_digits_exec(t.as_slice()) {
        return None;
    }
    match digits_value_bounded(t.as_slice(), 4294967295u64) {
        Some(v) => Some(v as u32),
        None => None,
    }
}

/// The value of an all-digit string when it is at most `i32::MAX`.
pub fn parse_digits_i32(s: &[char]) -> (r: Option<i32>)
    requires
        all_digits(s@),
    ensures
        match r {
            Some(v) => v == digits_value(s@) && v >= 0,
            None => digits_value(s@) > i32::MAX,
        },
{
    match digits_value_bounded(s, 2147483647u64) {
        Some(v) => Some(v as i32),
        None => None,
    }
}

} // verus!

verus! {

/// `t` padded on the left with zeros to at least `w` characters.
pub open spec fn zero_pad(t: Seq<char>, w: nat) -> Seq<char> {
    if t.len() >= w {
        t
    } else {
        Seq::new((w - t.len()) as nat, |i: int| '0') + t
    }
}

/// `format!("{:0w$}", n)`: zero-padded to width `w`, the sign counting towards the width.
pub open spec fn padded_decimal(n: int, w: nat) -> Seq<char> {
    if n < 0 {
        seq!['-'] + zero_pad(decimal((-n) as nat), if w >= 1 { (w - 1) as nat } else { 0 })
    } else {
        zero_pad(decimal(n as nat), w)
    }
}

/// `t` padded on the left with zeros to at least `w` characters.
pub fn zero_pad_exec(t: &[char], w: usize) -> (r: Vec<char>)
    ensures
        r@ == zero_pad(t@, w as nat),
{
    let mut out: Vec<char> = Vec::new();
    if t.len() < w {
        let k = w - t.len();
        let mut i: usize = 0;
        while i < k
            invariant
                i <= k,
                out@ == Seq::new(i as nat, |j: int| '0'),
            decreases k - i,
        {
            out.push('0');
            i += 1;
        }
    }
    let mut j: usize = 0;
    let ghost pre = out@;
    while j < t.len()
        invariant
            j <= t@.len(),
            out@ == pre + t@.take(j as int),
        decreases t@.len() - j,
    {
        out.push(t[j]);
        j += 1;
    }
    assert(t@.take(t@.len() as int) == t@);
    if t.len() >= w {
        assert(pre.len() == 0);
        assert(out@ == t@);
    }
    out
}

/// `format!("{:0w$}", n)`.
pub fn padded_decimal_i64(n: i64, w: usize) -> (r: Vec<char>)
    requires
        w >= 1,
    ensures
        r@ == padded_decimal(n as int, w as nat),
{
    if n < 0 {
        let m: u64 = if n == i64::MIN {
            9223372036854775808u64
        } else {
            (-n) as u64
        };
        let d = decimal_u64(m);
        let p = zero_pad_exec(d.as_slice(), w - 1);
        let mut out: Vec<char> = Vec::new();
        out.push('-');
        let mut j: usize = 0;
        while j < p.len()
            invariant
                j <= p@.len(),
                out@ == seq!['-'] + p@.take(j as int),
            decreases p@.len() - j,
        {
            out.push(p[j]);
            j += 1;
        }
        assert(p@.take(p@.len() as int) == p@);
        out
    } else {
        let d = decimal_u64(n as u64);
        zero_pad_exec(d.as_slice(), w)
    }
}

} // verus!
