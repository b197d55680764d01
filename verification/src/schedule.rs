//! Calendar time stamps: the moment of a backup run as written into its name.
//!
//! A stamp is written `YYYY-MM-DD-HH-MM-SS-mmm`, every field with a fixed
//! number of digits, so that the order of the written stamps is the order of
//! the moments they stand for.

use crate::text::{
    all_digits, digits_value, fixed_decimal, from_chars, is_digit, lemma_digits_are_fixed_decimal,
    lemma_fixed_decimal_exact, lemma_fixed_decimal_len, lemma_fixed_decimal_order,
    lemma_fixed_decimal_value, lemma_lex_lt_embedded, lex_lt,
    parse_digits, pow10, push_fixed_decimal, push_str, to_chars,
};
use crate::config::{BackupConfigSchedule, ScheduleView};
use chrono::{Datelike, Timelike};
use std::str::FromStr;
use vstd::prelude::*;

verus! {

/// A moment of local calendar time, to the millisecond.
#[derive(Clone, Copy, Debug, PartialEq, Eq, Structural)]
pub struct DateTime {
    pub year: u16,
    pub month: u8,
    pub day: u8,
    pub hour: u8,
    pub minute: u8,
    pub second: u8,
    pub millisecond: u16,
}

/// The number of characters of a written stamp.
pub const DATETIMESTAMP_LEN: usize = 23;

/// Whether `year` has a 29th of February.
pub open spec fn is_leap_year(year: int) -> bool {
    (year % 4 == 0 && year % 100 != 0) || year % 400 == 0
}

/// The number of days of a month; zero where `month` is no month.
pub open spec fn days_in_month(year: int, month: int) -> int {
    if month == 2 {
        if is_leap_year(year) {
            29
        } else {
            28
        }
    } else if month == 4 || month == 6 || month == 9 || month == 11 {
        30
    } else if 1 <= month <= 12 {
        31
    } else {
        0
    }
}

/// The one-character text between the fields of a stamp.
pub open spec fn dash() -> Seq<char> {
    seq!['-']
}

/// The written form of a stamp.
pub open spec fn spec_datetimestamp(dt: DateTime) -> Seq<char> {
    fixed_decimal(dt.year as nat, 4) + dash() + fixed_decimal(dt.month as nat, 2) + dash()
        + fixed_decimal(dt.day as nat, 2) + dash() + fixed_decimal(dt.hour as nat, 2) + dash()
        + fixed_decimal(dt.minute as nat, 2) + dash() + fixed_decimal(dt.second as nat, 2) + dash()
        + fixed_decimal(dt.millisecond as nat, 3)
}

impl DateTime {
    /// Whether the fields name a moment of the calendar, in the years 0 to 9999.
    pub open spec fn wf(self) -> bool {
        &&& self.year <= 9999
        &&& 1 <= self.month <= 12
        &&& 1 <= self.day <= days_in_month(self.year as int, self.month as int)
        &&& self.hour < 24
        &&& self.minute < 60
        &&& self.second < 60
        &&& self.millisecond < 1000
    }

    /// Whether `self` is an earlier moment than `other`.
    pub open spec fn spec_before(self, other: DateTime) -> bool {
        if self.year != other.year {
            self.year < other.year
        } else if self.month != other.month {
            self.month < other.month
        } else if self.day != other.day {
            self.day < other.day
        } else if self.hour != other.hour {
            self.hour < other.hour
        } else if self.minute != other.minute {
            self.minute < other.minute
        } else if self.second != other.second {
            self.second < other.second
        } else {
            self.millisecond < other.millisecond
        }
    }

    /// Whether `self` is `other` or an earlier moment.
    pub open spec fn spec_at_or_before(self, other: DateTime) -> bool {
        self == other || self.spec_before(other)
    }

    /// The moment with the given fields, where they name one.
    pub fn new(
        year: u16,
        month: u8,
        day: u8,
        hour: u8,
        minute: u8,
        second: u8,
        millisecond: u16,
    ) -> (r: Option<DateTime>)
        ensures
            r == (if (DateTime { year, month, day, hour, minute, second, millisecond }).wf() {
                Some(DateTime { year, month, day, hour, minute, second, millisecond })
            } else {
                None::<DateTime>
            }),
    {
        let dt = DateTime { year, month, day, hour, minute, second, millisecond };
        if dt.is_valid() {
            Some(dt)
        } else {
            None
        }
    }

    /// Whether the fields name a moment of the calendar.
    pub fn is_valid(&self) -> (r: bool)
        ensures
            r == self.wf(),
    {
        self.year <= 9999 && 1 <= self.month && self.month <= 12 && 1 <= self.day && self.day
            <= month_length(self.year, self.month) && self.hour < 24 && self.minute < 60
            && self.second < 60 && self.millisecond < 1000
    }

    /// Whether `self` is an earlier moment than `other`.
    pub fn before(&self, other: &DateTime) -> (r: bool)
        ensures
            r == self.spec_before(*other),
    {
        if self.year != other.year {
            self.year < other.year
        } else if self.month != other.month {
            self.month < other.month
        } else if self.day != other.day {
            self.day < other.day
        } else if self.hour != other.hour {
            self.hour < other.hour
        } else if self.minute != other.minute {
            self.minute < other.minute
        } else if self.second != other.second {
            self.second < other.second
        } else {
            self.millisecond < other.millisecond
        }
    }

    /// Whether `self` is `other` or an earlier moment.
    pub fn at_or_before(&self, other: &DateTime) -> (r: bool)
        ensures
            r == self.spec_at_or_before(*other),
    {
        !other.before(self)
    }
}

/// The number of days of a month; zero where `month` is no month.
pub fn month_length(year: u16, month: u8) -> (r: u8)
    ensures
        r == days_in_month(year as int, month as int),
{
    if month == 2 {
        if (year % 4 == 0 && year % 100 != 0) || year % 400 == 0 {
            29
        } else {
            28
        }
    } else if month == 4 || month == 6 || month == 9 || month == 11 {
        30
    } else if 1 <= month && month <= 12 {
        31
    } else {
        0
    }
}

/// Appends the written form of `dt` to `out`.
pub fn push_datetimestamp(out: &mut Vec<char>, dt: &DateTime)
    ensures
        final(out)@ == old(out)@ + spec_datetimestamp(*dt),
{
    proof {
        reveal_strlit("-");
        assert("-"@ =~= dash());
    }
    push_fixed_decimal(out, dt.year as u32, 4);
    push_str(out, "-");
    push_fixed_decimal(out, dt.month as u32, 2);
    push_str(out, "-");
    push_fixed_decimal(out, dt.day as u32, 2);
    push_str(out, "-");
    push_fixed_decimal(out, dt.hour as u32, 2);
    push_str(out, "-");
    push_fixed_decimal(out, dt.minute as u32, 2);
    push_str(out, "-");
    push_fixed_decimal(out, dt.second as u32, 2);
    push_str(out, "-");
    push_fixed_decimal(out, dt.millisecond as u32, 3);
    assert(out@ =~= old(out)@ + spec_datetimestamp(*dt));
}

/// The written form of a moment: `YYYY-MM-DD-HH-MM-SS-mmm`.
pub fn datetimestamp(dt: DateTime) -> (s: String)
    ensures
        s@ == spec_datetimestamp(dt),
{
    let mut out: Vec<char> = Vec::new();
    push_datetimestamp(&mut out, &dt);
    from_chars(&out)
}

/// The parts of a written stamp: its length, its dashes, and the numeral of
/// each field at its place.
pub proof fn lemma_datetimestamp_parts(dt: DateTime)
    ensures
        spec_datetimestamp(dt).len() == 23,
        spec_datetimestamp(dt).subrange(0, 4) == fixed_decimal(dt.year as nat, 4),
        spec_datetimestamp(dt).subrange(5, 7) == fixed_decimal(dt.month as nat, 2),
        spec_datetimestamp(dt).subrange(8, 10) == fixed_decimal(dt.day as nat, 2),
        spec_datetimestamp(dt).subrange(11, 13) == fixed_decimal(dt.hour as nat, 2),
        spec_datetimestamp(dt).subrange(14, 16) == fixed_decimal(dt.minute as nat, 2),
        spec_datetimestamp(dt).subrange(17, 19) == fixed_decimal(dt.second as nat, 2),
        spec_datetimestamp(dt).subrange(20, 23) == fixed_decimal(dt.millisecond as nat, 3),
        spec_datetimestamp(dt)[4] == '-',
        spec_datetimestamp(dt)[7] == '-',
        spec_datetimestamp(dt)[10] == '-',
        spec_datetimestamp(dt)[13] == '-',
        spec_datetimestamp(dt)[16] == '-',
        spec_datetimestamp(dt)[19] == '-',
{
    lemma_fixed_decimal_value(dt.year as nat, 4);
    lemma_fixed_decimal_value(dt.month as nat, 2);
    lemma_fixed_decimal_value(dt.day as nat, 2);
    lemma_fixed_decimal_value(dt.hour as nat, 2);
    lemma_fixed_decimal_value(dt.minute as nat, 2);
    lemma_fixed_decimal_value(dt.second as nat, 2);
    lemma_fixed_decimal_value(dt.millisecond as nat, 3);
    let s = spec_datetimestamp(dt);
    assert(s.subrange(0, 4) =~= fixed_decimal(dt.year as nat, 4));
    assert(s.subrange(5, 7) =~= fixed_decimal(dt.month as nat, 2));
    assert(s.subrange(8, 10) =~= fixed_decimal(dt.day as nat, 2));
    assert(s.subrange(11, 13) =~= fixed_decimal(dt.hour as nat, 2));
    assert(s.subrange(14, 16) =~= fixed_decimal(dt.minute as nat, 2));
    assert(s.subrange(17, 19) =~= fixed_decimal(dt.second as nat, 2));
    assert(s.subrange(20, 23) =~= fixed_decimal(dt.millisecond as nat, 3));
}

/// A written stamp holds digits and dashes only.
pub proof fn lemma_datetimestamp_chars(dt: DateTime)
    ensures
        forall|i: int|
            0 <= i < spec_datetimestamp(dt).len() ==> {
                let c = #[trigger] spec_datetimestamp(dt)[i];
                is_digit(c) || c == '-'
            },
{
    lemma_datetimestamp_parts(dt);
    lemma_fixed_decimal_value(dt.year as nat, 4);
    lemma_fixed_decimal_value(dt.month as nat, 2);
    lemma_fixed_decimal_value(dt.day as nat, 2);
    lemma_fixed_decimal_value(dt.hour as nat, 2);
    lemma_fixed_decimal_value(dt.minute as nat, 2);
    lemma_fixed_decimal_value(dt.second as nat, 2);
    lemma_fixed_decimal_value(dt.millisecond as nat, 3);
    let s = spec_datetimestamp(dt);
    assert forall|i: int| 0 <= i < s.len() implies {
        let c = #[trigger] s[i];
        is_digit(c) || c == '-'
    } by {
        if i < 4 {
            assert(s[i] == s.subrange(0, 4)[i]);
        } else if 5 <= i < 7 {
            assert(s[i] == s.subrange(5, 7)[i - 5]);
        } else if 8 <= i < 10 {
            assert(s[i] == s.subrange(8, 10)[i - 8]);
        } else if 11 <= i < 13 {
            assert(s[i] == s.subrange(11, 13)[i - 11]);
        } else if 14 <= i < 16 {
            assert(s[i] == s.subrange(14, 16)[i - 14]);
        } else if 17 <= i < 19 {
            assert(s[i] == s.subrange(17, 19)[i - 17]);
        } else if 20 <= i {
            assert(s[i] == s.subrange(20, 23)[i - 20]);
        }
    }
}

/// The powers of ten that bound the fields of a stamp.
pub proof fn lemma_pow10_small()
    ensures
        pow10(2) == 100,
        pow10(3) == 1000,
        pow10(4) == 10000,
{
    reveal_with_fuel(pow10, 5);
}

/// Whether `s` has the shape of a written stamp: the length, the dashes and
/// digits everywhere else.
pub open spec fn has_stamp_shape(s: Seq<char>) -> bool {
    &&& s.len() == 23
    &&& s[4] == '-' && s[7] == '-' && s[10] == '-' && s[13] == '-' && s[16] == '-' && s[19] == '-'
    &&& all_digits(s.subrange(0, 4))
    &&& all_digits(s.subrange(5, 7))
    &&& all_digits(s.subrange(8, 10))
    &&& all_digits(s.subrange(11, 13))
    &&& all_digits(s.subrange(14, 16))
    &&& all_digits(s.subrange(17, 19))
    &&& all_digits(s.subrange(20, 23))
}

/// The fields that a text of the shape of a stamp holds.
pub open spec fn stamp_fields(s: Seq<char>) -> DateTime {
    DateTime {
        year: digits_value(s.subrange(0, 4)) as u16,
        month: digits_value(s.subrange(5, 7)) as u8,
        day: digits_value(s.subrange(8, 10)) as u8,
        hour: digits_value(s.subrange(11, 13)) as u8,
        minute: digits_value(s.subrange(14, 16)) as u8,
        second: digits_value(s.subrange(17, 19)) as u8,
        millisecond: digits_value(s.subrange(20, 23)) as u16,
    }
}

/// What reading a written stamp gives: the moment that the text names, and
/// `None` where the text has not the shape of a stamp or names no moment of
/// the calendar.
pub open spec fn spec_from_datetimestamp(s: Seq<char>) -> Option<DateTime> {
    if has_stamp_shape(s) && stamp_fields(s).wf() {
        Some(stamp_fields(s))
    } else {
        None
    }
}

/// Reads a written stamp.
pub fn from_datetimestamp(s: &str) -> (r: Option<DateTime>)
    ensures
        r == spec_from_datetimestamp(s@),
{
    let chars = to_chars(s);
    parse_datetimestamp(&chars)
}

/// Reads a written stamp from its characters.
pub fn parse_datetimestamp(chars: &Vec<char>) -> (r: Option<DateTime>)
    ensures
        r == spec_from_datetimestamp(chars@),
{
    let ghost s = chars@;
    if chars.len() != DATETIMESTAMP_LEN {
        return None;
    }
    if chars[4] != '-' || chars[7] != '-' || chars[10] != '-' || chars[13] != '-' || chars[16]
        != '-' || chars[19] != '-' {
        return None;
    }
    let year = match parse_digits(chars, 0, 4) {
        Some(v) => v,
        None => {
            proof {
                lemma_stamp_field_bounds(s);
            }
            return None;
        },
    };
    let month = match parse_digits(chars, 5, 7) {
        Some(v) => v,
        None => {
            proof {
                lemma_stamp_field_bounds(s);
            }
            return None;
        },
    };
    let day = match parse_digits(chars, 8, 10) {
        Some(v) => v,
        None => {
            proof {
                lemma_stamp_field_bounds(s);
            }
            return None;
        },
    };
    let hour = match parse_digits(chars, 11, 13) {
        Some(v) => v,
        None => {
            proof {
                lemma_stamp_field_bounds(s);
            }
            return None;
        },
    };
    let minute = match parse_digits(chars, 14, 16) {
        Some(v) => v,
        None => {
            proof {
                lemma_stamp_field_bounds(s);
            }
            return None;
        },
    };
    let second = match parse_digits(chars, 17, 19) {
        Some(v) => v,
        None => {
            proof {
                lemma_stamp_field_bounds(s);
            }
            return None;
        },
    };
    let millisecond = match parse_digits(chars, 20, 23) {
        Some(v) => v,
        None => {
            proof {
                lemma_stamp_field_bounds(s);
            }
            return None;
        },
    };
    proof {
        lemma_stamp_field_bounds(s);
    }
    let dt = DateTime {
        year: year as u16,
        month: month as u8,
        day: day as u8,
        hour: hour as u8,
        minute: minute as u8,
        second: second as u8,
        millisecond: millisecond as u16,
    };
    if !dt.is_valid() {
        return None;
    }
    Some(dt)
}

/// The numbers in a text of the shape of a stamp are below the powers of
/// ten of their widths.
pub proof fn lemma_stamp_field_bounds(s: Seq<char>)
    requires
        s.len() == 23,
    ensures
        all_digits(s.subrange(0, 4)) ==> digits_value(s.subrange(0, 4)) < 10000,
        all_digits(s.subrange(5, 7)) ==> digits_value(s.subrange(5, 7)) < 100,
        all_digits(s.subrange(8, 10)) ==> digits_value(s.subrange(8, 10)) < 100,
        all_digits(s.subrange(11, 13)) ==> digits_value(s.subrange(11, 13)) < 100,
        all_digits(s.subrange(14, 16)) ==> digits_value(s.subrange(14, 16)) < 100,
        all_digits(s.subrange(17, 19)) ==> digits_value(s.subrange(17, 19)) < 100,
        all_digits(s.subrange(20, 23)) ==> digits_value(s.subrange(20, 23)) < 1000,
{
    lemma_pow10_small();
    if all_digits(s.subrange(0, 4)) {
        lemma_digits_are_fixed_decimal(s.subrange(0, 4));
    }
    if all_digits(s.subrange(5, 7)) {
        lemma_digits_are_fixed_decimal(s.subrange(5, 7));
    }
    if all_digits(s.subrange(8, 10)) {
        lemma_digits_are_fixed_decimal(s.subrange(8, 10));
    }
    if all_digits(s.subrange(11, 13)) {
        lemma_digits_are_fixed_decimal(s.subrange(11, 13));
    }
    if all_digits(s.subrange(14, 16)) {
        lemma_digits_are_fixed_decimal(s.subrange(14, 16));
    }
    if all_digits(s.subrange(17, 19)) {
        lemma_digits_are_fixed_decimal(s.subrange(17, 19));
    }
    if all_digits(s.subrange(20, 23)) {
        lemma_digits_are_fixed_decimal(s.subrange(20, 23));
    }
}

/// Reading gives a moment of the calendar, and writing that moment gives
/// the text back.
pub proof fn lemma_stamp_of_parse(s: Seq<char>)
    requires
        spec_from_datetimestamp(s) is Some,
    ensures
        spec_from_datetimestamp(s)->0.wf(),
        spec_datetimestamp(spec_from_datetimestamp(s)->0) == s,
{
    let dt = stamp_fields(s);
    lemma_stamp_field_bounds(s);
    lemma_digits_are_fixed_decimal(s.subrange(0, 4));
    lemma_digits_are_fixed_decimal(s.subrange(5, 7));
    lemma_digits_are_fixed_decimal(s.subrange(8, 10));
    lemma_digits_are_fixed_decimal(s.subrange(11, 13));
    lemma_digits_are_fixed_decimal(s.subrange(14, 16));
    lemma_digits_are_fixed_decimal(s.subrange(17, 19));
    lemma_digits_are_fixed_decimal(s.subrange(20, 23));
    let w = spec_datetimestamp(dt);
    lemma_datetimestamp_parts(dt);
    assert(w =~= s) by {
        assert forall|i: int| 0 <= i < 23 implies w[i] == s[i] by {
            if i < 4 {
                assert(w[i] == w.subrange(0, 4)[i]);
                assert(s[i] == s.subrange(0, 4)[i]);
            } else if 5 <= i < 7 {
                assert(w[i] == w.subrange(5, 7)[i - 5]);
                assert(s[i] == s.subrange(5, 7)[i - 5]);
            } else if 8 <= i < 10 {
                assert(w[i] == w.subrange(8, 10)[i - 8]);
                assert(s[i] == s.subrange(8, 10)[i - 8]);
            } else if 11 <= i < 13 {
                assert(w[i] == w.subrange(11, 13)[i - 11]);
                assert(s[i] == s.subrange(11, 13)[i - 11]);
            } else if 14 <= i < 16 {
                assert(w[i] == w.subrange(14, 16)[i - 14]);
                assert(s[i] == s.subrange(14, 16)[i - 14]);
            } else if 17 <= i < 19 {
                assert(w[i] == w.subrange(17, 19)[i - 17]);
                assert(s[i] == s.subrange(17, 19)[i - 17]);
            } else if 20 <= i {
                assert(w[i] == w.subrange(20, 23)[i - 20]);
                assert(s[i] == s.subrange(20, 23)[i - 20]);
            }
        }
    }
}

/// Reading the written form of a moment of the calendar gives that moment.
pub proof fn lemma_parse_of_stamp(dt: DateTime)
    requires
        dt.wf(),
    ensures
        spec_from_datetimestamp(spec_datetimestamp(dt)) == Some(dt),
{
    lemma_pow10_small();
    lemma_datetimestamp_parts(dt);
    lemma_datetimestamp_fields(dt);
    lemma_fixed_decimal_exact(dt.year as nat, 4);
    lemma_fixed_decimal_exact(dt.month as nat, 2);
    lemma_fixed_decimal_exact(dt.day as nat, 2);
    lemma_fixed_decimal_exact(dt.hour as nat, 2);
    lemma_fixed_decimal_exact(dt.minute as nat, 2);
    lemma_fixed_decimal_exact(dt.second as nat, 2);
    lemma_fixed_decimal_exact(dt.millisecond as nat, 3);
}

/// The fields of a moment can be read off its written form.
pub proof fn lemma_datetimestamp_fields(dt: DateTime)
    requires
        dt.wf(),
    ensures
        digits_value(spec_datetimestamp(dt).subrange(0, 4)) == dt.year,
        digits_value(spec_datetimestamp(dt).subrange(5, 7)) == dt.month,
        digits_value(spec_datetimestamp(dt).subrange(8, 10)) == dt.day,
        digits_value(spec_datetimestamp(dt).subrange(11, 13)) == dt.hour,
        digits_value(spec_datetimestamp(dt).subrange(14, 16)) == dt.minute,
        digits_value(spec_datetimestamp(dt).subrange(17, 19)) == dt.second,
        digits_value(spec_datetimestamp(dt).subrange(20, 23)) == dt.millisecond,
{
    lemma_pow10_small();
    lemma_datetimestamp_parts(dt);
    lemma_fixed_decimal_exact(dt.year as nat, 4);
    lemma_fixed_decimal_exact(dt.month as nat, 2);
    lemma_fixed_decimal_exact(dt.day as nat, 2);
    lemma_fixed_decimal_exact(dt.hour as nat, 2);
    lemma_fixed_decimal_exact(dt.minute as nat, 2);
    lemma_fixed_decimal_exact(dt.second as nat, 2);
    lemma_fixed_decimal_exact(dt.millisecond as nat, 3);
}

/// Two moments with the same written form are the same moment.
pub proof fn lemma_datetimestamp_injective(a: DateTime, b: DateTime)
    requires
        a.wf(),
        b.wf(),
        spec_datetimestamp(a) == spec_datetimestamp(b),
    ensures
        a == b,
{
    lemma_datetimestamp_fields(a);
    lemma_datetimestamp_fields(b);
}

/// Where two texts agree up to a numeral of fixed width, the text with the
/// smaller number comes first, whatever follows the numerals.
proof fn lemma_field_order(p: Seq<char>, x: nat, y: nat, width: nat, ra: Seq<char>, rb: Seq<char>)
    requires
        x < y < pow10(width),
    ensures
        lex_lt(p + fixed_decimal(x, width) + ra, p + fixed_decimal(y, width) + rb),
{
    let i = lemma_fixed_decimal_order(x, y, width);
    lemma_lex_lt_embedded(p, fixed_decimal(x, width), fixed_decimal(y, width), ra, rb, i);
}

/// The stamp of the earlier of two moments comes first in lexicographic
/// order, and so does any text that begins with it, against any text that
/// begins with the stamp of the later moment.
#[verifier::rlimit(60)]
#[verifier::spinoff_prover]
pub proof fn lemma_datetimestamp_order(a: DateTime, b: DateTime, ra: Seq<char>, rb: Seq<char>)
    requires
        a.wf(),
        b.wf(),
        a.spec_before(b),
    ensures
        lex_lt(spec_datetimestamp(a) + ra, spec_datetimestamp(b) + rb),
{
    lemma_pow10_small();
    let d = dash();
    let (ya, yb) = (fixed_decimal(a.year as nat, 4), fixed_decimal(b.year as nat, 4));
    let (oa, ob) = (fixed_decimal(a.month as nat, 2), fixed_decimal(b.month as nat, 2));
    let (da, db) = (fixed_decimal(a.day as nat, 2), fixed_decimal(b.day as nat, 2));
    let (ha, hb) = (fixed_decimal(a.hour as nat, 2), fixed_decimal(b.hour as nat, 2));
    let (ia, ib) = (fixed_decimal(a.minute as nat, 2), fixed_decimal(b.minute as nat, 2));
    let (sa, sb) = (fixed_decimal(a.second as nat, 2), fixed_decimal(b.second as nat, 2));
    let (ma, mb) = (
        fixed_decimal(a.millisecond as nat, 3),
        fixed_decimal(b.millisecond as nat, 3),
    );
    let wa = spec_datetimestamp(a) + ra;
    let wb = spec_datetimestamp(b) + rb;
    lemma_fixed_decimal_len(a.year as nat, 4);
    lemma_fixed_decimal_len(a.month as nat, 2);
    lemma_fixed_decimal_len(a.day as nat, 2);
    lemma_fixed_decimal_len(a.hour as nat, 2);
    lemma_fixed_decimal_len(a.minute as nat, 2);
    lemma_fixed_decimal_len(a.second as nat, 2);
    lemma_fixed_decimal_len(a.millisecond as nat, 3);
    lemma_fixed_decimal_len(b.year as nat, 4);
    lemma_fixed_decimal_len(b.month as nat, 2);
    lemma_fixed_decimal_len(b.day as nat, 2);
    lemma_fixed_decimal_len(b.hour as nat, 2);
    lemma_fixed_decimal_len(b.minute as nat, 2);
    lemma_fixed_decimal_len(b.second as nat, 2);
    lemma_fixed_decimal_len(b.millisecond as nat, 3);
    if a.year != b.year {
        let p = Seq::<char>::empty();
        let ta = d + oa + d + da + d + ha + d + ia + d + sa + d + ma + ra;
        let tb = d + ob + d + db + d + hb + d + ib + d + sb + d + mb + rb;
        lemma_field_order(p, a.year as nat, b.year as nat, 4, ta, tb);
        assert(p + ya + ta =~= wa);
        assert(p + yb + tb =~= wb);
    } else if a.month != b.month {
        let p = ya + d;
        let ta = d + da + d + ha + d + ia + d + sa + d + ma + ra;
        let tb = d + db + d + hb + d + ib + d + sb + d + mb + rb;
        lemma_field_order(p, a.month as nat, b.month as nat, 2, ta, tb);
        assert(p + oa + ta =~= wa);
        assert(p + ob + tb =~= wb);
    } else if a.day != b.day {
        let p = ya + d + oa + d;
        let ta = d + ha + d + ia + d + sa + d + ma + ra;
        let tb = d + hb + d + ib + d + sb + d + mb + rb;
        lemma_field_order(p, a.day as nat, b.day as nat, 2, ta, tb);
        assert(p + da + ta =~= wa);
        assert(p + db + tb =~= wb);
    } else if a.hour != b.hour {
        let p = ya + d + oa + d + da + d;
        let ta = d + ia + d + sa + d + ma + ra;
        let tb = d + ib + d + sb + d + mb + rb;
        lemma_field_order(p, a.hour as nat, b.hour as nat, 2, ta, tb);
        assert(p + ha + ta =~= wa);
        assert(p + hb + tb =~= wb);
    } else if a.minute != b.minute {
        let p = ya + d + oa + d + da + d + ha + d;
        let ta = d + sa + d + ma + ra;
        let tb = d + sb + d + mb + rb;
        lemma_field_order(p, a.minute as nat, b.minute as nat, 2, ta, tb);
        assert(p + ia + ta =~= wa);
        assert(p + ib + tb =~= wb);
    } else if a.second != b.second {
        let p = ya + d + oa + d + da + d + ha + d + ia + d;
        let ta = d + ma + ra;
        let tb = d + mb + rb;
        lemma_field_order(p, a.second as nat, b.second as nat, 2, ta, tb);
        assert(p + sa + ta =~= wa);
        assert(p + sb + tb =~= wb);
    } else {
        let p = ya + d + oa + d + da + d + ha + d + ia + d + sa + d;
        lemma_field_order(p, a.millisecond as nat, b.millisecond as nat, 3, ra, rb);
        assert(p + ma + ra =~= wa);
        assert(p + mb + rb =~= wb);
    }
}

/// What the cron evaluator gives for a cron expression and a moment: the
/// year, month, day, hour, minute and second of the next occurrence of the
/// expression after that moment, or `None`.
pub uninterp spec fn cron_next_after(
    expression: Seq<char>,
    year: u16,
    month: u8,
    day: u8,
    hour: u8,
    minute: u8,
    second: u8,
    millisecond: u16,
) -> Option<(i32, u32, u32, u32, u32, u32)>;

/// The next occurrence of a cron expression after a moment, by its fields:
/// `cron::Schedule::from_str` reads the expression and
/// `Schedule::after(..).next()` finds the occurrence, on the calendar
/// without a time zone. `None` where the expression is not accepted or has
/// no occurrence after the moment. The result is a function of the
/// expression and the moment alone; no more is claimed of it.
#[verifier::external_body]
fn cron_next(expression: &str, after: &DateTime) -> (r: Option<(i32, u32, u32, u32, u32, u32)>)
    requires
        after.wf(),
    ensures
        r == cron_next_after(
            expression@,
            after.year,
            after.month,
            after.day,
            after.hour,
            after.minute,
            after.second,
            after.millisecond,
        ),
{
    let schedule = cron::Schedule::from_str(expression).ok()?;
    let date = chrono::NaiveDate::from_ymd_opt(after.year.into(), after.month.into(), after.day.into())?;
    let time = date.and_hms_milli_opt(
        after.hour.into(),
        after.minute.into(),
        after.second.into(),
        after.millisecond.into(),
    )?;
    let next = schedule.after(&time.and_utc()).next()?;
    Some((next.year(), next.month(), next.day(), next.hour(), next.minute(), next.second()))
}

/// The moment that the fields of an occurrence name, at the start of its
/// second; `None` where there is no occurrence or the fields name no moment
/// of the calendar in the years 0 to 9999.
pub open spec fn spec_occurrence(fields: Option<(i32, u32, u32, u32, u32, u32)>) -> Option<
    DateTime,
> {
    match fields {
        None => None,
        Some((year, month, day, hour, minute, second)) => {
            if 0 <= year <= 9999 && month <= 12 && day <= 31 && hour < 24 && minute < 60 && second
                < 60 {
                let dt = DateTime {
                    year: year as u16,
                    month: month as u8,
                    day: day as u8,
                    hour: hour as u8,
                    minute: minute as u8,
                    second: second as u8,
                    millisecond: 0,
                };
                if dt.wf() {
                    Some(dt)
                } else {
                    None
                }
            } else {
                None
            }
        },
    }
}

/// The moment that the fields of an occurrence name.
pub fn occurrence(fields: Option<(i32, u32, u32, u32, u32, u32)>) -> (r: Option<DateTime>)
    ensures
        r == spec_occurrence(fields),
        r matches Some(dt) ==> dt.wf(),
{
    match fields {
        None => None,
        Some((year, month, day, hour, minute, second)) => {
            if 0 <= year && year <= 9999 && month <= 12 && day <= 31 && hour < 24 && minute < 60
                && second < 60 {
                DateTime::new(
                    year as u16,
                    month as u8,
                    day as u8,
                    hour as u8,
                    minute as u8,
                    second as u8,
                    0,
                )
            } else {
                None
            }
        },
    }
}

/// An occurrence that lies strictly after a moment, and `None` for any
/// other.
pub open spec fn spec_later(found: Option<DateTime>, after: DateTime) -> Option<DateTime> {
    match found {
        Some(dt) if after.spec_before(dt) => Some(dt),
        _ => None,
    }
}

/// The next occurrence of a schedule after a moment: what the cron
/// evaluator gives for the expression of the schedule in the evaluator's
/// count of the days of the week, where that lies strictly after `after`;
/// `None` where `after` is no moment of the calendar.
pub open spec fn spec_next_occurrence(schedule: ScheduleView, after: DateTime) -> Option<DateTime> {
    if after.wf() {
        spec_later(
            spec_occurrence(
                cron_next_after(
                    schedule.evaluator_expression(),
                    after.year,
                    after.month,
                    after.day,
                    after.hour,
                    after.minute,
                    after.second,
                    after.millisecond,
                ),
            ),
            after,
        )
    } else {
        None
    }
}

/// Keeps an occurrence only where it lies strictly after a moment.
pub fn later(found: Option<DateTime>, after: &DateTime) -> (r: Option<DateTime>)
    ensures
        r == spec_later(found, *after),
{
    match found {
        Some(dt) => {
            if after.before(&dt) {
                Some(dt)
            } else {
                None
            }
        },
        None => None,
    }
}

/// The next occurrence of a schedule after a moment: never the moment
/// itself.
pub fn next_occurrence(schedule: &BackupConfigSchedule, after: &DateTime) -> (r: Option<DateTime>)
    ensures
        r == spec_next_occurrence(schedule@, *after),
        r matches Some(dt) ==> dt.wf() && after.spec_before(dt),
{
    if !after.is_valid() {
        return None;
    }
    let expression = schedule.to_evaluator_expression();
    later(occurrence(cron_next(expression.as_str(), after)), after)
}

/// Whether an occurrence has come: there is one, and it is not after `now`.
pub open spec fn spec_is_due(next: Option<DateTime>, now: DateTime) -> bool {
    next matches Some(t) && t.spec_at_or_before(now)
}

/// Whether an occurrence has come.
pub fn is_due(next: Option<DateTime>, now: &DateTime) -> (r: bool)
    ensures
        r == spec_is_due(next, *now),
{
    match next {
        Some(t) => t.at_or_before(now),
        None => false,
    }
}

} // verus!
