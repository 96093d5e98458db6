//! Characters and strings: the small vocabulary the parsers are written in.

use vstd::prelude::*;
use vstd::slice::slice_subrange;
use vstd::string::StringExecFns;

verus! {

/// Whether `c` carries the Unicode property `White_Space`.
pub open spec fn is_white_space(c: char) -> bool {
    let n = c as u32;
    ||| 0x09 <= n <= 0x0D
    ||| n == 0x20
    ||| n == 0x85
    ||| n == 0xA0
    ||| n == 0x1680
    ||| 0x2000 <= n <= 0x200A
    ||| n == 0x2028
    ||| n == 0x2029
    ||| n == 0x202F
    ||| n == 0x205F
    ||| n == 0x3000
}

/// `s` without its leading white space.
pub open spec fn trim_start(s: Seq<char>) -> Seq<char>
    decreases s.len(),
{
    if s.len() > 0 && is_white_space(s[0]) {
        trim_start(s.drop_first())
    } else {
        s
    }
}

/// `s` without its trailing white space.
pub open spec fn trim_end(s: Seq<char>) -> Seq<char>
    decreases s.len(),
{
    if s.len() > 0 && is_white_space(s.last()) {
        trim_end(s.drop_last())
    } else {
        s
    }
}

/// `s` without leading and trailing white space.
pub open spec fn trimmed(s: Seq<char>) -> Seq<char> {
    trim_end(trim_start(s))
}

/// Whether `c` is one of the ten ASCII digits.
pub open spec fn is_digit(c: char) -> bool {
    0x30 <= c as u32 <= 0x39
}

/// The number an ASCII digit stands for.
pub open spec fn digit_value(c: char) -> int {
    c as u32 - 0x30
}

/// The number that the decimal digits `s` write, most significant first.
pub open spec fn decimal_value(s: Seq<char>) -> nat
    decreases s.len(),
{
    if s.len() == 0 {
        0
    } else {
        (decimal_value(s.drop_last()) * 10 + digit_value(s.last())) as nat
    }
}

/// The ASCII digit that writes `d`.
pub open spec fn digit_char(d: int) -> char
    recommends
        0 <= d <= 9,
{
    ((0x30 + d) as u8) as char
}

/// `n` written with exactly two decimal digits.
pub open spec fn two_digits(n: int) -> Seq<char>
    recommends
        0 <= n <= 99,
{
    seq![digit_char(n / 10), digit_char(n % 10)]
}

/// `n` written in decimal without leading zeros.
pub open spec fn decimal_text(n: nat) -> Seq<char>
    decreases n,
{
    if n < 10 {
        seq![digit_char(n as int)]
    } else {
        decimal_text(n / 10).push(digit_char((n % 10) as int))
    }
}

/// Executable test for `is_white_space`.
pub fn white_space(c: char) -> (b: bool)
    ensures
        b == is_white_space(c),
{
    let n: u32 = c as u32;
    (0x09 <= n && n <= 0x0D) || n == 0x20 || n == 0x85 || n == 0xA0 || n == 0x1680 || (0x2000 <= n
        && n <= 0x200A) || n == 0x2028 || n == 0x2029 || n == 0x202F || n == 0x205F || n == 0x3000
}

/// The value of `c` where it is an ASCII digit.
pub fn digit(c: char) -> (d: Option<u8>)
    ensures
        d is Some <==> is_digit(c),
        d matches Some(x) ==> x == digit_value(c) && x <= 9,
{
    let n: u32 = c as u32;
    if 0x30 <= n && n <= 0x39 {
        Some((n - 0x30) as u8)
    } else {
        None
    }
}

/// The characters of `s`, in order.
pub fn chars_of(s: &str) -> (v: Vec<char>)
    ensures
        v@ == s@,
{
    let mut v: Vec<char> = Vec::new();
    for c in it: s.chars()
        invariant
            v@ == it.seq().take(it.index()),
    {
        v.push(c);
    }
    v
}

/// The part of `v` that is left when white space is cut from both ends.
pub fn trim(v: &[char]) -> (t: &[char])
    ensures
        t@ == trimmed(v@),
{
    let n = v.len();
    let mut a: usize = 0;
    assert(v@.subrange(0, n as int) == v@);
    while a < n && white_space(v[a])
        invariant
            a <= n == v@.len(),
            trim_start(v@) == trim_start(v@.subrange(a as int, n as int)),
        decreases n - a,
    {
        assert(v@.subrange(a as int, n as int).drop_first() == v@.subrange(a + 1, n as int));
        a += 1;
    }
    let mut b: usize = n;
    let ghost s = v@.subrange(a as int, n as int);
    assert(trim_start(v@) == s);
    while a < b && white_space(v[b - 1])
        invariant
            a <= b <= n == v@.len(),
            s == v@.subrange(a as int, n as int),
            trim_end(s) == trim_end(v@.subrange(a as int, b as int)),
        decreases b - a,
    {
        assert(v@.subrange(a as int, b as int).drop_last() == v@.subrange(a as int, b - 1));
        b -= 1;
    }
    slice_subrange(v, a, b)
}

/// Appends the ASCII digit for `d` to `s`.
pub fn push_digit(s: &mut String, d: u8)
    requires
        d <= 9,
    ensures
        final(s)@ == old(s)@.push(digit_char(d as int)),
{
    proof {
        reveal_strlit("0");
        reveal_strlit("1");
        reveal_strlit("2");
        reveal_strlit("3");
        reveal_strlit("4");
        reveal_strlit("5");
        reveal_strlit("6");
        reveal_strlit("7");
        reveal_strlit("8");
        reveal_strlit("9");
    }
    let t = if d == 0 {
        "0"
    } else if d == 1 {
        "1"
    } else if d == 2 {
        "2"
    } else if d == 3 {
        "3"
    } else if d == 4 {
        "4"
    } else if d == 5 {
        "5"
    } else if d == 6 {
        "6"
    } else if d == 7 {
        "7"
    } else if d == 8 {
        "8"
    } else {
        "9"
    };
    assert(t@ == seq![digit_char(d as int)]);
    s.append(t);
    assert(s@ == old(s)@.push(digit_char(d as int)));
}

/// Appends `n`, written with two digits, to `s`.
pub fn push_two_digits(s: &mut String, n: u8)
    requires
        n <= 99,
    ensures
        final(s)@ == old(s)@ + two_digits(n as int),
{
    push_digit(s, n / 10);
    push_digit(s, n % 10);
    assert(s@ == old(s)@ + two_digits(n as int));
}

/// Appends `n`, written in decimal without leading zeros, to `s`.
pub fn push_decimal(s: &mut String, n: u64)
    ensures
        final(s)@ == old(s)@ + decimal_text(n as nat),
    decreases n,
{
    if n >= 10 {
        push_decimal(s, n / 10);
    }
    push_digit(s, (n % 10) as u8);
    assert(s@ == old(s)@ + decimal_text(n as nat));
}

} // verus!
