//! Offsets from UTC and the text forms that cameras write them in.

use vstd::prelude::*;
use vstd::slice::slice_subrange;
use vstd::string::StringExecFns;
use crate::immichctl::ImmichCtl;
use crate::text::{
    chars_of, digit, digit_char, digit_value, is_digit, push_two_digits, trim, trimmed, two_digits,
};

verus! {

/// Seconds in an hour.
pub const HOUR: i32 = 3600;

/// Seconds in a minute.
pub const MINUTE: i32 = 60;

/// Seconds in a day: every offset is strictly closer to zero than this.
pub const DAY: i32 = 86_400;

/// An offset from UTC in seconds, positive to the east, strictly within a day
/// on either side.
#[derive(Clone, Copy, Debug, PartialEq, Eq, Structural)]
pub struct TimezoneOffset {
    secs: i32,
}

/// Why a text is not an offset.
#[derive(Clone, Copy, Debug, PartialEq, Eq, Structural)]
pub enum TimezoneError {
    /// Nothing is left once white space is cut away.
    Empty,
    /// The offset does not begin with `+` or `-`.
    MissingSign,
    /// What follows the sign is none of `H`, `HH`, `H:MM`, `HH:MM`, `HHMM`.
    Malformed,
    /// The hours exceed 14 or the minutes exceed 59.
    OutOfRange,
}

/// Whether `secs` seconds is an offset.
pub open spec fn valid_offset(secs: int) -> bool {
    -DAY < secs < DAY
}

/// The three letters that stand for the zero offset and may precede a signed one.
pub open spec fn utc_prefix() -> Seq<char> {
    seq!['U', 'T', 'C']
}

/// `t` after a leading `UTC`, or all of `t` where it has none.
pub open spec fn after_utc(t: Seq<char>) -> Seq<char> {
    if t.len() >= 3 && t.subrange(0, 3) == utc_prefix() {
        t.subrange(3, t.len() as int)
    } else {
        t
    }
}

/// The number written by the two digits `a` and `b`.
pub open spec fn pair_value(a: char, b: char) -> int {
    10 * digit_value(a) + digit_value(b)
}

/// Hours and minutes written by `d`, the text behind the sign, in one of the
/// forms `H`, `HH`, `H:MM`, `HH:MM`, `HHMM`.
pub open spec fn hours_minutes(d: Seq<char>) -> Option<(int, int)> {
    if d.len() == 1 && is_digit(d[0]) {
        Some((digit_value(d[0]), 0))
    } else if d.len() == 2 && is_digit(d[0]) && is_digit(d[1]) {
        Some((pair_value(d[0], d[1]), 0))
    } else if d.len() == 4 && is_digit(d[0]) && d[1] == ':' && is_digit(d[2]) && is_digit(d[3]) {
        Some((digit_value(d[0]), pair_value(d[2], d[3])))
    } else if d.len() == 4 && is_digit(d[0]) && is_digit(d[1]) && is_digit(d[2]) && is_digit(d[3]) {
        Some((pair_value(d[0], d[1]), pair_value(d[2], d[3])))
    } else if d.len() == 5 && is_digit(d[0]) && is_digit(d[1]) && d[2] == ':' && is_digit(d[3])
        && is_digit(d[4]) {
        Some((pair_value(d[0], d[1]), pair_value(d[3], d[4])))
    } else {
        None
    }
}

/// The offset that the signed text `p` writes.
pub open spec fn signed_offset(p: Seq<char>) -> Result<int, TimezoneError> {
    if p.len() == 0 || (p[0] != '+' && p[0] != '-') {
        Err(TimezoneError::MissingSign)
    } else {
        match hours_minutes(p.subrange(1, p.len() as int)) {
            None => Err(TimezoneError::Malformed),
            Some((h, m)) => if h > 14 || m > 59 {
                Err(TimezoneError::OutOfRange)
            } else if p[0] == '-' {
                Ok(-(h * HOUR + m * MINUTE))
            } else {
                Ok(h * HOUR + m * MINUTE)
            },
        }
    }
}

/// The offset in seconds that `text` writes, or why it writes none.
pub open spec fn parse_offset(text: Seq<char>) -> Result<int, TimezoneError> {
    let t = trimmed(text);
    if t.len() == 0 {
        Err(TimezoneError::Empty)
    } else if t == utc_prefix() {
        Ok(0)
    } else {
        signed_offset(after_utc(t))
    }
}

/// The canonical text of the offset `secs`: sign, hours and minutes as
/// `+HH:MM`, followed by `:SS` where the offset has odd seconds.
pub open spec fn offset_text(secs: int) -> Seq<char> {
    let a = if secs < 0 {
        -secs
    } else {
        secs
    };
    let sign = if secs < 0 {
        '-'
    } else {
        '+'
    };
    let head = seq![sign] + two_digits(a / 3600) + seq![':'] + two_digits((a / 60) % 60);
    if a % 60 == 0 {
        head
    } else {
        head + seq![':'] + two_digits(a % 60)
    }
}

impl View for TimezoneOffset {
    type V = int;

    closed spec fn view(&self) -> int {
        self.secs as int
    }
}

impl TimezoneOffset {
    /// The offset is less than a day in either direction.
    #[verifier::type_invariant]
    pub closed spec fn wf(self) -> bool {
        valid_offset(self.secs as int)
    }

    /// The offset of `secs` seconds east of UTC, if that is less than a day.
    pub fn east_opt(secs: i32) -> (r: Option<TimezoneOffset>)
        ensures
            r is Some <==> valid_offset(secs as int),
            r matches Some(off) ==> off@ == secs && off.wf(),
    {
        if -DAY < secs && secs < DAY {
            Some(TimezoneOffset { secs })
        } else {
            None
        }
    }

    /// The zero offset.
    pub fn utc() -> (off: TimezoneOffset)
        ensures
            off@ == 0,
            off.wf(),
    {
        TimezoneOffset { secs: 0 }
    }

    /// The canonical text of the offset, such as `+02:00` or `-05:30`.
    pub fn to_string(&self) -> (text: String)
        ensures
            text@ == offset_text(self@),
    {
        proof {
            use_type_invariant(self);
            reveal_strlit("-");
            reveal_strlit("+");
            reveal_strlit(":");
        }
        let a: i32 = if self.secs < 0 {
            -self.secs
        } else {
            self.secs
        };
        let mut text = if self.secs < 0 {
            String::from_str("-")
        } else {
            String::from_str("+")
        };
        push_two_digits(&mut text, (a / 3600) as u8);
        text.append(":");
        push_two_digits(&mut text, ((a / 60) % 60) as u8);
        if a % 60 != 0 {
            text.append(":");
            push_two_digits(&mut text, (a % 60) as u8);
        }
        text
    }

    /// Seconds to add to UTC to get the local time.
    pub fn local_minus_utc(&self) -> (secs: i32)
        ensures
            secs == self@,
            valid_offset(secs as int),
    {
        proof {
            use_type_invariant(self);
        }
        self.secs
    }
}

/// A signed offset whose hours exceed 14 or whose minutes exceed 59 is
/// refused, with or without `UTC` before it and white space around it.
pub proof fn lemma_out_of_range_is_refused(text: Seq<char>)
    requires
        after_utc(trimmed(text)).len() > 0,
        after_utc(trimmed(text))[0] == '+' || after_utc(trimmed(text))[0] == '-',
        hours_minutes(after_utc(trimmed(text)).skip(1)) matches Some((h, m)) && (h > 14 || m > 59),
    ensures
        parse_offset(text) == Err::<int, TimezoneError>(TimezoneError::OutOfRange),
{
    let t = trimmed(text);
    let p = after_utc(t);
    assert(p.skip(1) == p.subrange(1, p.len() as int));
    if t == utc_prefix() {
        assert(t.subrange(0, 3) == t);
        assert(p.len() == 0);
    }
}

/// Every text that reads as an offset writes at most 14 hours and at most 59
/// minutes, and the offset is these, east for `+` and west for `-`.
pub proof fn lemma_parsed_offset_is_bounded(text: Seq<char>)
    requires
        parse_offset(text) is Ok,
    ensures
        exists|h: int, m: int|
            0 <= h <= 14 && 0 <= m <= 59 && (parse_offset(text)->Ok_0 == #[trigger] (h * HOUR + m
                * MINUTE) || parse_offset(text)->Ok_0 == -(h * HOUR + m * MINUTE)),
        valid_offset(parse_offset(text)->Ok_0),
{
    let t = trimmed(text);
    if t == utc_prefix() {
        assert(parse_offset(text)->Ok_0 == 0 * HOUR + 0 * MINUTE);
    } else {
        let p = after_utc(t);
        let (h, m) = hours_minutes(p.subrange(1, p.len() as int))->0;
        assert(0 <= h && 0 <= m);
        assert(parse_offset(text)->Ok_0 == h * HOUR + m * MINUTE || parse_offset(text)->Ok_0 == -(h
            * HOUR + m * MINUTE));
    }
}

/// The canonical text of an offset reads back as that offset, where the
/// offset is one that a text can write: whole minutes, at most 14 hours and
/// 59 minutes from UTC.
pub proof fn lemma_offset_text_reads_back(secs: int)
    requires
        secs % 60 == 0,
        -(14 * HOUR + 59 * MINUTE) <= secs <= 14 * HOUR + 59 * MINUTE,
    ensures
        parse_offset(offset_text(secs)) == Ok::<int, TimezoneError>(secs),
{
    let a = if secs < 0 {
        -secs
    } else {
        secs
    };
    let h = a / 3600;
    let m = (a / 60) % 60;
    let text = offset_text(secs);
    assert(a % 60 == 0 && 0 <= h <= 14 && 0 <= m <= 59 && a == h * 3600 + m * 60);
    assert(text.len() == 6);
    assert(text[0] == '+' || text[0] == '-');
    assert(trimmed(text) == text);
    assert(after_utc(text) == text) by {
        assert(text.subrange(0, 3)[0] == text[0]);
    }
    let d = text.subrange(1, 6);
    assert(d.len() == 5);
    assert(d[0] == digit_char(h / 10) && d[1] == digit_char(h % 10) && d[2] == ':');
    assert(d[3] == digit_char(m / 10) && d[4] == digit_char(m % 10));
    assert(forall|x: int| 0 <= x <= 9 ==> is_digit(#[trigger] digit_char(x)) && digit_value(
        digit_char(x)) == x);
    assert(hours_minutes(d) == Some((h, m)));
}

/// The zero offset has no direction: `UTC` alone, and every signed offset
/// whose hours and minutes are zero, under either sign, is the zero offset.
pub proof fn lemma_zero_offset(text: Seq<char>)
    requires
        trimmed(text) == utc_prefix() || {
            &&& after_utc(trimmed(text)).len() > 0
            &&& after_utc(trimmed(text))[0] == '+' || after_utc(trimmed(text))[0] == '-'
            &&& hours_minutes(after_utc(trimmed(text)).skip(1)) == Some((0int, 0int))
        },
    ensures
        parse_offset(text) == Ok::<int, TimezoneError>(0),
{
    let t = trimmed(text);
    let p = after_utc(t);
    assert(p.skip(1) == p.subrange(1, p.len() as int));
}

/// Hours and minutes behind the sign.
fn parse_hours_minutes(d: &[char]) -> (r: Option<(u8, u8)>)
    ensures
        r is Some <==> hours_minutes(d@) is Some,
        r matches Some((h, m)) ==> hours_minutes(d@) == Some((h as int, m as int)),
{
    let n = d.len();
    if n == 1 {
        match digit(d[0]) {
            Some(h) => Some((h, 0)),
            None => None,
        }
    } else if n == 2 {
        match (digit(d[0]), digit(d[1])) {
            (Some(a), Some(b)) => Some((10 * a + b, 0)),
            _ => None,
        }
    } else if n == 4 {
        match (digit(d[0]), digit(d[1]), digit(d[2]), digit(d[3])) {
            (Some(a), Some(b), Some(c), Some(e)) => Some((10 * a + b, 10 * c + e)),
            (Some(a), None, Some(c), Some(e)) => if d[1] == ':' {
                Some((a, 10 * c + e))
            } else {
                None
            },
            _ => None,
        }
    } else if n == 5 {
        match (digit(d[0]), digit(d[1]), digit(d[3]), digit(d[4])) {
            (Some(a), Some(b), Some(c), Some(e)) => if d[2] == ':' {
                Some((10 * a + b, 10 * c + e))
            } else {
                None
            },
            _ => None,
        }
    } else {
        None
    }
}

impl ImmichCtl {
    /// Reads an offset from `tz_str`.
    ///
    /// White space around the text is ignored. What is left is `UTC` alone, for the
    /// zero offset, or a signed offset, which `UTC` may precede: `+` or `-`, then
    /// the hours in one or two digits, then optionally the minutes in two digits,
    /// after a colon or, behind two-digit hours, without one. Hours above 14 and
    /// minutes above 59 are refused rather than clamped.
    pub fn parse_exif_timezone(tz_str: &str) -> (r: Result<TimezoneOffset, TimezoneError>)
        ensures
            match r {
                Ok(off) => parse_offset(tz_str@) == Ok::<int, TimezoneError>(off@) && off.wf(),
                Err(e) => parse_offset(tz_str@) == Err::<int, TimezoneError>(e),
            },
    {
        let all = chars_of(tz_str);
        let t = trim(all.as_slice());
        let n = t.len();
        if n == 0 {
            return Err(TimezoneError::Empty);
        }
        let has_prefix = n >= 3 && t[0] == 'U' && t[1] == 'T' && t[2] == 'C';
        assert(has_prefix <==> t@.len() >= 3 && t@.subrange(0, 3) == utc_prefix()) by {
            if has_prefix {
                assert(t@.subrange(0, 3) == utc_prefix());
            }
            if t@.len() >= 3 && t@.subrange(0, 3) == utc_prefix() {
                assert(t@.subrange(0, 3)[0] == 'U');
                assert(t@.subrange(0, 3)[1] == 'T');
                assert(t@.subrange(0, 3)[2] == 'C');
            }
        }
        if has_prefix && n == 3 {
            assert(t@ == t@.subrange(0, 3));
            return Ok(TimezoneOffset::utc());
        }
        assert(t@ != utc_prefix()) by {
            if t@ == utc_prefix() {
                assert(t@.subrange(0, 3) == t@);
            }
        }
        let p = if has_prefix {
            slice_subrange(t, 3, n)
        } else {
            t
        };
        assert(p@ == after_utc(t@));
        if p.len() == 0 {
            return Err(TimezoneError::MissingSign);
        }
        let negative = p[0] == '-';
        if !negative && p[0] != '+' {
            return Err(TimezoneError::MissingSign);
        }
        match parse_hours_minutes(slice_subrange(p, 1, p.len())) {
            None => Err(TimezoneError::Malformed),
            Some((h, m)) => {
                if h > 14 || m > 59 {
                    Err(TimezoneError::OutOfRange)
                } else {
                    let magnitude: i32 = (h as i32) * HOUR + (m as i32) * MINUTE;
                    let secs: i32 = if negative {
                        -magnitude
                    } else {
                        magnitude
                    };
                    Ok(TimezoneOffset { secs })
                }
            },
        }
    }
}

} // verus!
