//! Spans of time as the command line writes them: `1d2h3m`, `-30m`.

use vstd::prelude::*;
use vstd::string::StringExecFns;
use crate::text::{
    chars_of, decimal_text, decimal_value, digit, digit_char, digit_value, is_digit, push_decimal,
};

verus! {

/// The longest span, in whole seconds, in either direction.
pub const MAX_SECONDS: i64 = 9_223_372_036_854_775;

/// A span of whole seconds, forwards or backwards.
#[derive(Clone, Copy, Debug, PartialEq, Eq, Structural)]
pub struct TimeDeltaValue {
    secs: i64,
}

/// Why a text is not a span.
#[derive(Clone, Copy, Debug, PartialEq, Eq, Structural)]
pub enum TimeDeltaError {
    /// The text is not an optional sign followed by days, hours and minutes,
    /// in that order and at least one of them.
    InvalidFormat,
    /// The span is longer than `MAX_SECONDS`.
    OutOfRange,
}

/// How many ASCII digits `s` begins with.
pub open spec fn leading_digits(s: Seq<char>) -> nat
    decreases s.len(),
{
    if s.len() > 0 && is_digit(s[0]) {
        1 + leading_digits(s.drop_first())
    } else {
        0
    }
}

/// The number that `digits` write. One that does not fit a signed 64-bit
/// integer counts as zero.
pub open spec fn component_value(digits: Seq<char>) -> int {
    let v = decimal_value(digits);
    if v <= i64::MAX {
        v as int
    } else {
        0
    }
}

/// Reads a number followed by the letter `unit` from the start of `s`: the
/// number and what follows the letter, or nothing and all of `s` where `s`
/// does not begin so. The definition is kept closed to the prover until
/// `reveal(take_component)` opens it.
#[verifier::opaque]
pub open spec fn take_component(s: Seq<char>, unit: char) -> (Option<int>, Seq<char>) {
    let k = leading_digits(s) as int;
    if 0 < k < s.len() && s[k] == unit {
        (Some(component_value(s.subrange(0, k))), s.subrange(k + 1, s.len() as int))
    } else {
        (None, s)
    }
}

/// What a component adds to the span: nothing where it is absent.
pub open spec fn or_zero(component: Option<int>) -> int {
    match component {
        Some(v) => v,
        None => 0,
    }
}

/// Whether `text` begins with a sign.
pub open spec fn has_sign(text: Seq<char>) -> bool {
    text.len() > 0 && (text[0] == '+' || text[0] == '-')
}

/// The span in seconds that `text` writes, or why it writes none.
///
/// The text is an optional `+` or `-`, then up to three numbers, each followed
/// by its unit: days `d`, hours `h`, minutes `m`, in this order, at least one.
pub open spec fn parse_time_delta(text: Seq<char>) -> Result<int, TimeDeltaError> {
    let body = if has_sign(text) {
        text.subrange(1, text.len() as int)
    } else {
        text
    };
    let (days, after_days) = take_component(body, 'd');
    let (hours, after_hours) = take_component(after_days, 'h');
    let (minutes, rest) = take_component(after_hours, 'm');
    let total = or_zero(days) * 86_400 + or_zero(hours) * 3_600 + or_zero(minutes) * 60;
    if rest.len() != 0 || (days is None && hours is None && minutes is None) {
        Err(TimeDeltaError::InvalidFormat)
    } else if total > MAX_SECONDS {
        Err(TimeDeltaError::OutOfRange)
    } else if has_sign(text) && text[0] == '-' {
        Ok(-total)
    } else {
        Ok(total)
    }
}

/// `n` followed by `unit`, or nothing where `n` is zero.
pub open spec fn unit_text(n: int, unit: char) -> Seq<char> {
    if n > 0 {
        decimal_text(n as nat).push(unit)
    } else {
        Seq::empty()
    }
}

/// The text of a span of so many days, hours and minutes, each left out
/// where it is zero, behind `-` for a span backwards. A span of none of them
/// is `0m`.
pub open spec fn parts_text(days: int, hours: int, minutes: int, backwards: bool) -> Seq<char> {
    let body = unit_text(days, 'd') + unit_text(hours, 'h') + unit_text(minutes, 'm');
    if days == 0 && hours == 0 && minutes == 0 {
        seq!['0', 'm']
    } else if backwards {
        seq!['-'] + body
    } else {
        body
    }
}

/// The text of a span of `secs` seconds: its whole days, hours and minutes.
/// What is left of less than a minute is not shown.
pub open spec fn time_delta_text(secs: int) -> Seq<char> {
    let a = if secs < 0 {
        -secs
    } else {
        secs
    };
    parts_text(a / 86_400, (a % 86_400) / 3_600, (a % 3_600) / 60, secs < 0)
}

/// Whether a span of `secs` seconds is representable.
pub open spec fn valid_span(secs: int) -> bool {
    -MAX_SECONDS <= secs <= MAX_SECONDS
}

impl View for TimeDeltaValue {
    type V = int;

    /// The span in seconds.
    closed spec fn view(&self) -> int {
        self.secs as int
    }
}

impl TimeDeltaValue {
    /// The span is no longer than `MAX_SECONDS`.
    #[verifier::type_invariant]
    pub closed spec fn wf(self) -> bool {
        valid_span(self.secs as int)
    }

    /// The span of `secs` seconds, where that is representable.
    pub fn try_seconds(secs: i64) -> (r: Option<TimeDeltaValue>)
        ensures
            r is Some <==> valid_span(secs as int),
            r matches Some(d) ==> d@ == secs && d.wf(),
    {
        if -MAX_SECONDS <= secs && secs <= MAX_SECONDS {
            Some(TimeDeltaValue { secs })
        } else {
            None
        }
    }

    /// The empty span.
    pub fn zero() -> (d: TimeDeltaValue)
        ensures
            d@ == 0,
            d.wf(),
    {
        TimeDeltaValue { secs: 0 }
    }

    /// Reads a span such as `1d2h3m`, `+1d`, `2h` or `-30m`.
    pub fn from_str(s: &str) -> (r: Result<TimeDeltaValue, TimeDeltaError>)
        ensures
            match r {
                Ok(d) => parse_time_delta(s@) == Ok::<int, TimeDeltaError>(d@) && d.wf(),
                Err(e) => parse_time_delta(s@) == Err::<int, TimeDeltaError>(e),
            },
    {
        let v = chars_of(s);
        let n = v.len();
        let signed = n > 0 && (v[0] == '+' || v[0] == '-');
        let start: usize = if signed {
            1
        } else {
            0
        };
        assert(v@.subrange(0, n as int) == v@);
        let (days, after_days) = read_component(v.as_slice(), start, 'd');
        let (hours, after_hours) = read_component(v.as_slice(), after_days, 'h');
        let (minutes, end) = read_component(v.as_slice(), after_hours, 'm');
        if end != n || (days.is_none() && hours.is_none() && minutes.is_none()) {
            return Err(TimeDeltaError::InvalidFormat);
        }
        let total: i128 = (value_or_zero(days) as i128) * 86_400 + (value_or_zero(hours) as i128)
            * 3_600 + (value_or_zero(minutes) as i128) * 60;
        if total > MAX_SECONDS as i128 {
            return Err(TimeDeltaError::OutOfRange);
        }
        let secs: i64 = if signed && v[0] == '-' {
            -(total as i64)
        } else {
            total as i64
        };
        Ok(TimeDeltaValue { secs })
    }

    /// The span as text, such as `1d2h3m` or `-1d3m`.
    pub fn to_string(&self) -> (text: String)
        ensures
            text@ == time_delta_text(self@),
    {
        proof {
            use_type_invariant(self);
            reveal_strlit("0m");
            reveal_strlit("-");
            reveal_strlit("d");
            reveal_strlit("h");
            reveal_strlit("m");
        }
        let a: u64 = if self.secs < 0 {
            (-self.secs) as u64
        } else {
            self.secs as u64
        };
        let days = a / 86_400;
        let hours = (a % 86_400) / 3_600;
        let minutes = (a % 3_600) / 60;
        if days == 0 && hours == 0 && minutes == 0 {
            return String::from_str("0m");
        }
        let mut text = String::new();
        if self.secs < 0 {
            text.append("-");
        }
        let ghost sign = text@;
        if days > 0 {
            push_decimal(&mut text, days);
            text.append("d");
        }
        assert(text@ == sign + unit_text(days as int, 'd'));
        if hours > 0 {
            push_decimal(&mut text, hours);
            text.append("h");
        }
        assert(text@ == sign + unit_text(days as int, 'd') + unit_text(hours as int, 'h'));
        if minutes > 0 {
            push_decimal(&mut text, minutes);
            text.append("m");
        }
        assert(text@ == sign + (unit_text(days as int, 'd') + unit_text(hours as int, 'h')
            + unit_text(minutes as int, 'm')));
        text
    }

    /// The span in seconds.
    pub fn num_seconds(&self) -> (secs: i64)
        ensures
            secs == self@,
            valid_span(secs as int),
    {
        proof {
            use_type_invariant(self);
        }
        self.secs
    }
}

/// The decimal text of a number consists of digits and writes that number.
proof fn lemma_decimal_text(n: nat)
    ensures
        decimal_text(n).len() > 0,
        forall|i: int| 0 <= i < decimal_text(n).len() ==> is_digit(#[trigger] decimal_text(n)[i]),
        decimal_value(decimal_text(n)) == n,
    decreases n,
{
    assert(forall|x: int| 0 <= x <= 9 ==> is_digit(#[trigger] digit_char(x)) && digit_value(
        digit_char(x)) == x);
    if n < 10 {
        let t = decimal_text(n);
        assert(t.drop_last() == Seq::<char>::empty());
        reveal_with_fuel(decimal_value, 2);
    } else {
        lemma_decimal_text(n / 10);
        let t = decimal_text(n / 10);
        let c = digit_char((n % 10) as int);
        assert(t.push(c).drop_last() == t);
    }
}

/// Digits followed by something that is no digit are as many leading digits.
proof fn lemma_leading_digits(digits: Seq<char>, rest: Seq<char>)
    requires
        forall|i: int| 0 <= i < digits.len() ==> is_digit(#[trigger] digits[i]),
        rest.len() == 0 || !is_digit(rest[0]),
    ensures
        leading_digits(digits + rest) == digits.len(),
    decreases digits.len(),
{
    if digits.len() == 0 {
        assert(digits + rest == rest);
    } else {
        lemma_leading_digits(digits.drop_first(), rest);
        assert((digits + rest).drop_first() == digits.drop_first() + rest);
    }
}

/// A number with its unit reads as that number where the unit is asked
/// for, and as nothing where another one is.
proof fn lemma_take_component(n: nat, written: char, rest: Seq<char>, unit: char)
    requires
        !is_digit(written),
        n <= i64::MAX,
    ensures
        take_component(decimal_text(n).push(written) + rest, unit) == if written == unit {
            (Some(n as int), rest)
        } else {
            (None::<int>, decimal_text(n).push(written) + rest)
        },
{
    reveal(take_component);
    let digits = decimal_text(n);
    let s = digits.push(written) + rest;
    lemma_decimal_text(n);
    lemma_leading_digits(digits, seq![written] + rest);
    assert(s == digits + (seq![written] + rest));
    let k = digits.len() as int;
    assert(s[k] == written);
    assert(s.subrange(0, k) == digits);
    assert(s.subrange(k + 1, s.len() as int) == rest);
}

/// Days, hours and minutes make up a span of whole minutes.
proof fn lemma_parts(a: int)
    requires
        0 <= a,
        a % 60 == 0,
    ensures
        a == (a / 86_400) * 86_400 + ((a % 86_400) / 3_600) * 3_600 + ((a % 3_600) / 60) * 60,
        0 <= (a % 86_400) / 3_600 < 24,
        0 <= (a % 3_600) / 60 < 60,
        0 <= a / 86_400 <= a,
{
    let r = a % 86_400;
    assert(a == (a / 86_400) * 86_400 + r);
    assert(r % 3_600 == a % 3_600);
    assert(r == (r / 3_600) * 3_600 + r % 3_600);
    let q = a % 3_600;
    assert(q % 60 == 0);
    assert(q == (q / 60) * 60);
}

/// Nothing reads as no component.
proof fn lemma_take_nothing(unit: char)
    ensures
        take_component(Seq::empty(), unit) == (None::<int>, Seq::<char>::empty()),
{
    reveal(take_component);
}

/// Days, hours and minutes, each with its unit and each left out where it is
/// zero, read back one after the other.
proof fn lemma_components_read_back(days: nat, hours: nat, minutes: nat)
    requires
        days <= i64::MAX,
        hours <= i64::MAX,
        minutes <= i64::MAX,
    ensures
        ({
            let after_hours = unit_text(minutes as int, 'm');
            let after_days = unit_text(hours as int, 'h') + after_hours;
            let body = unit_text(days as int, 'd') + unit_text(hours as int, 'h') + after_hours;
            &&& take_component(body, 'd') == (
                if days > 0 {
                    Some(days as int)
                } else {
                    None::<int>
                },
                after_days,
            )
            &&& take_component(after_days, 'h') == (
                if hours > 0 {
                    Some(hours as int)
                } else {
                    None::<int>
                },
                after_hours,
            )
            &&& take_component(after_hours, 'm') == (
                if minutes > 0 {
                    Some(minutes as int)
                } else {
                    None::<int>
                },
                Seq::<char>::empty(),
            )
            &&& (days > 0 || hours > 0 || minutes > 0) ==> body.len() > 0 && is_digit(body[0])
        }),
{
    let h = unit_text(hours as int, 'h');
    let m = unit_text(minutes as int, 'm');
    let none = Seq::<char>::empty();
    let after_days = h + m;
    let body = unit_text(days as int, 'd') + h + m;
    lemma_decimal_text(days);
    lemma_decimal_text(hours);
    lemma_decimal_text(minutes);
    assert(m =~= if minutes > 0 {
        decimal_text(minutes).push('m') + none
    } else {
        none
    });
    assert(after_days =~= if hours > 0 {
        decimal_text(hours).push('h') + m
    } else {
        m
    });
    assert(body =~= if days > 0 {
        decimal_text(days).push('d') + after_days
    } else {
        after_days
    });
    assert(take_component(m, 'm').0 == if minutes > 0 {
        Some(minutes as int)
    } else {
        None::<int>
    } && take_component(m, 'm').1 == none) by {
        lemma_take_component(minutes, 'm', none, 'm');
        lemma_take_nothing('m');
    }
    assert(take_component(after_days, 'h').0 == if hours > 0 {
        Some(hours as int)
    } else {
        None::<int>
    } && take_component(after_days, 'h').1 == m) by {
        lemma_take_component(hours, 'h', m, 'h');
        lemma_take_component(minutes, 'm', none, 'h');
        lemma_take_nothing('h');
    }
    assert(take_component(body, 'd').0 == if days > 0 {
        Some(days as int)
    } else {
        None::<int>
    } && take_component(body, 'd').1 == after_days) by {
        lemma_take_component(days, 'd', after_days, 'd');
        lemma_take_component(hours, 'h', m, 'd');
        lemma_take_component(minutes, 'm', none, 'd');
        lemma_take_nothing('d');
    }
}

/// The text of days, hours and minutes reads back as the span that they
/// make up.
proof fn lemma_parts_text_reads_back(days: nat, hours: nat, minutes: nat, backwards: bool)
    requires
        days * 86_400 + hours * 3_600 + minutes * 60 <= MAX_SECONDS,
        backwards ==> days > 0 || hours > 0 || minutes > 0,
    ensures
        parse_time_delta(parts_text(days as int, hours as int, minutes as int, backwards)) == Ok::<
            int,
            TimeDeltaError,
        >(
            if backwards {
                -(days * 86_400 + hours * 3_600 + minutes * 60)
            } else {
                (days * 86_400 + hours * 3_600 + minutes * 60) as int
            },
        ),
{
    let text = parts_text(days as int, hours as int, minutes as int, backwards);
    if days == 0 && hours == 0 && minutes == 0 {
        lemma_zero_minutes_read_back();
    } else {
        let body = unit_text(days as int, 'd') + unit_text(hours as int, 'h') + unit_text(
            minutes as int,
            'm',
        );
        lemma_components_read_back(days, hours, minutes);
        if backwards {
            assert(text.subrange(1, text.len() as int) == body);
            assert(has_sign(text) && text[0] == '-');
        } else {
            assert(text == body);
            assert(!has_sign(text));
        }
    }
}

/// `0m` reads as the empty span.
proof fn lemma_zero_minutes_read_back()
    ensures
        parse_time_delta(seq!['0', 'm']) == Ok::<int, TimeDeltaError>(0),
{
    let none = Seq::<char>::empty();
    let text = seq!['0', 'm'];
    assert(text == decimal_text(0).push('m') + none);
    lemma_take_component(0, 'm', none, 'd');
    lemma_take_component(0, 'm', none, 'h');
    lemma_take_component(0, 'm', none, 'm');
    assert(!has_sign(text));
}

/// The text of a span of whole minutes reads back as that span.
pub proof fn lemma_time_delta_text_reads_back(secs: int)
    requires
        valid_span(secs),
        secs % 60 == 0,
    ensures
        parse_time_delta(time_delta_text(secs)) == Ok::<int, TimeDeltaError>(secs),
{
    let a = if secs < 0 {
        -secs
    } else {
        secs
    };
    lemma_parts(a);
    lemma_parts_text_reads_back(
        (a / 86_400) as nat,
        ((a % 86_400) / 3_600) as nat,
        ((a % 3_600) / 60) as nat,
        secs < 0,
    );
}

/// What a component adds to the span.
fn value_or_zero(component: Option<i64>) -> (v: i64)
    requires
        component matches Some(x) ==> x >= 0,
    ensures
        v == or_zero(
            match component {
                Some(x) => Some(x as int),
                None => None,
            },
        ),
        v >= 0,
{
    match component {
        Some(x) => x,
        None => 0,
    }
}

/// Reads a number followed by `unit` at `pos`.
fn read_component(v: &[char], pos: usize, unit: char) -> (r: (Option<i64>, usize))
    requires
        pos <= v@.len(),
    ensures
        pos <= r.1 <= v@.len(),
        r.0 matches Some(x) ==> x >= 0,
        take_component(v@.subrange(pos as int, v@.len() as int), unit) == (
            match r.0 {
                Some(x) => Some(x as int),
                None => None,
            },
            v@.subrange(r.1 as int, v@.len() as int),
        ),
{
    proof {
        reveal(take_component);
    }
    let n = v.len();
    let ghost s = v@.subrange(pos as int, n as int);
    let mut k: usize = pos;
    let mut acc: i64 = 0;
    let mut overflow = false;
    assert(s.subrange(0, 0) == Seq::<char>::empty());
    while k < n && digit(v[k]).is_some()
        invariant
            pos <= k <= n == v@.len(),
            s == v@.subrange(pos as int, n as int),
            leading_digits(s) == (k - pos) + leading_digits(v@.subrange(k as int, n as int)),
            forall|i: int| 0 <= i < k - pos ==> is_digit(s[i]),
            acc >= 0,
            !overflow ==> acc == decimal_value(s.subrange(0, k - pos)),
            overflow ==> decimal_value(s.subrange(0, k - pos)) > i64::MAX,
        decreases n - k,
    {
        let d = digit(v[k]).unwrap();
        proof {
            assert(v@.subrange(k as int, n as int).drop_first() == v@.subrange(k + 1, n as int));
            assert(s.subrange(0, k + 1 - pos).drop_last() == s.subrange(0, k - pos));
            assert(s.subrange(0, k + 1 - pos).last() == v@[k as int]);
        }
        if !overflow {
            if acc > (i64::MAX - d as i64) / 10 {
                overflow = true;
            } else {
                acc = acc * 10 + d as i64;
            }
        }
        k += 1;
    }
    assert(leading_digits(s) == k - pos);
    if k > pos && k < n && v[k] == unit {
        assert(s.subrange(k - pos + 1, s.len() as int) == v@.subrange(k + 1, n as int));
        if overflow {
            (Some(0), k + 1)
        } else {
            (Some(acc), k + 1)
        }
    } else {
        (None, pos)
    }
}

} // verus!
