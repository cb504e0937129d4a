//! Calendar timestamps in UTC, held as their fields, with the textual
//! date-time form that the activity log uses.

use chrono::{Datelike, Timelike};
use vstd::prelude::*;
use crate::text::{
    all_digits, decimal, digits_value, lemma_decimal_len, lemma_decimal_round_trip, pow10,
    push_char, push_decimal, read_decimal,
};

verus! {

/// A point in time as calendar fields, to the nanosecond.
#[derive(Clone, Copy, Debug, PartialEq, Eq, Structural)]
pub struct Timestamp {
    pub year: u16,
    pub month: u8,
    pub day: u8,
    pub hour: u8,
    pub minute: u8,
    pub second: u8,
    pub nanosecond: u32,
}

pub open spec fn is_leap_year(year: int) -> bool {
    year % 4 == 0 && (year % 100 != 0 || year % 400 == 0)
}

pub open spec fn days_in_month(year: int, month: int) -> int {
    if month == 2 {
        if is_leap_year(year) {
            29
        } else {
            28
        }
    } else if month == 4 || month == 6 || month == 9 || month == 11 {
        30
    } else {
        31
    }
}

/// The fraction of a second as the log writes it: nothing for a whole
/// second, else a point and three, six or nine digits, the fewest that
/// lose nothing.
pub open spec fn fraction_text(nanosecond: nat) -> Seq<char> {
    if nanosecond == 0 {
        Seq::empty()
    } else if nanosecond % 1_000_000 == 0 {
        seq!['.'] + decimal(nanosecond / 1_000_000, 3)
    } else if nanosecond % 1_000 == 0 {
        seq!['.'] + decimal(nanosecond / 1_000, 6)
    } else {
        seq!['.'] + decimal(nanosecond, 9)
    }
}

/// What `take_fraction` reads at the start of `t`: the nanoseconds and the
/// number of characters read, the closing `Z` included.
pub open spec fn take_fraction(t: Seq<char>) -> Option<(nat, nat)> {
    if t.len() >= 1 && t[0] == 'Z' {
        Some((0nat, 1nat))
    } else if t.len() >= 5 && t[0] == '.' && t[4] == 'Z' {
        if all_digits(t.subrange(1, 4)) {
            Some((digits_value(t.subrange(1, 4)) * 1_000_000, 5nat))
        } else {
            None
        }
    } else if t.len() >= 8 && t[0] == '.' && t[7] == 'Z' {
        if all_digits(t.subrange(1, 7)) {
            Some((digits_value(t.subrange(1, 7)) * 1_000, 8nat))
        } else {
            None
        }
    } else if t.len() >= 11 && t[0] == '.' && t[10] == 'Z' {
        if all_digits(t.subrange(1, 10)) {
            Some((digits_value(t.subrange(1, 10)), 11nat))
        } else {
            None
        }
    } else {
        None
    }
}

/// Whether `t` starts with the nineteen characters of a date and a time of
/// day: `YYYY-MM-DDTHH:MM:SS`.
pub open spec fn starts_with_date_time(t: Seq<char>) -> bool {
    &&& t.len() >= 19
    &&& all_digits(t.subrange(0, 4))
    &&& t[4] == '-'
    &&& all_digits(t.subrange(5, 7))
    &&& t[7] == '-'
    &&& all_digits(t.subrange(8, 10))
    &&& t[10] == 'T'
    &&& all_digits(t.subrange(11, 13))
    &&& t[13] == ':'
    &&& all_digits(t.subrange(14, 16))
    &&& t[16] == ':'
    &&& all_digits(t.subrange(17, 19))
}

/// The timestamp written at the start of `t`, with the number of characters
/// it takes; `None` where `t` does not start with one.
#[verifier::opaque]
pub open spec fn take_timestamp(t: Seq<char>) -> Option<(Timestamp, nat)> {
    if starts_with_date_time(t) {
        match take_fraction(t.skip(19)) {
            Some((nanosecond, taken)) => Some(
                (
                    Timestamp {
                        year: digits_value(t.subrange(0, 4)) as u16,
                        month: digits_value(t.subrange(5, 7)) as u8,
                        day: digits_value(t.subrange(8, 10)) as u8,
                        hour: digits_value(t.subrange(11, 13)) as u8,
                        minute: digits_value(t.subrange(14, 16)) as u8,
                        second: digits_value(t.subrange(17, 19)) as u8,
                        nanosecond: nanosecond as u32,
                    },
                    19 + taken,
                ),
            ),
            None => None,
        }
    } else {
        None
    }
}

impl Timestamp {
    /// A date that the calendar has, a time of day that a clock shows
    /// (second 60 for a leap second), and a year of four digits.
    pub open spec fn valid(self) -> bool {
        &&& self.year <= 9999
        &&& 1 <= self.month <= 12
        &&& 1 <= self.day <= days_in_month(self.year as int, self.month as int)
        &&& self.hour <= 23
        &&& self.minute <= 59
        &&& self.second <= 60
        &&& self.nanosecond <= 999_999_999
    }

    /// `self` is the same instant as `other` or a later one.
    pub open spec fn not_before(self, other: Timestamp) -> bool {
        if self.year != other.year {
            self.year > other.year
        } else if self.month != other.month {
            self.month > other.month
        } else if self.day != other.day {
            self.day > other.day
        } else if self.hour != other.hour {
            self.hour > other.hour
        } else if self.minute != other.minute {
            self.minute > other.minute
        } else if self.second != other.second {
            self.second > other.second
        } else {
            self.nanosecond >= other.nanosecond
        }
    }

    /// The later of two instants; `self` where they are the same.
    pub open spec fn later_of(self, other: Timestamp) -> Timestamp {
        if self.not_before(other) {
            self
        } else {
            other
        }
    }

    /// The date and the time of day: `YYYY-MM-DDTHH:MM:SS`.
    pub open spec fn date_time_text(self) -> Seq<char> {
        decimal(self.year as nat, 4) + seq!['-'] + decimal(self.month as nat, 2) + seq!['-']
            + decimal(self.day as nat, 2) + seq!['T'] + decimal(self.hour as nat, 2) + seq![':']
            + decimal(self.minute as nat, 2) + seq![':'] + decimal(self.second as nat, 2)
    }

    /// The timestamp as the activity log writes it, in UTC:
    /// `YYYY-MM-DDTHH:MM:SS`, the fraction of a second, and `Z`.
    pub open spec fn text(self) -> Seq<char> {
        self.date_time_text() + fraction_text(self.nanosecond as nat) + seq!['Z']
    }

    /// The timestamp as file names carry it: `YYYY-MM-DD_HH-MM-SS`.
    pub open spec fn file_stamp(self) -> Seq<char> {
        decimal(self.year as nat, 4) + seq!['-'] + decimal(self.month as nat, 2) + seq!['-']
            + decimal(self.day as nat, 2) + seq!['_'] + decimal(self.hour as nat, 2) + seq!['-']
            + decimal(self.minute as nat, 2) + seq!['-'] + decimal(self.second as nat, 2)
    }

    /// Builds a timestamp from its fields, where they name a valid one.
    pub fn new(
        year: u16,
        month: u8,
        day: u8,
        hour: u8,
        minute: u8,
        second: u8,
        nanosecond: u32,
    ) -> (r: Option<Timestamp>)
        ensures
            r == (if (Timestamp { year, month, day, hour, minute, second, nanosecond }).valid() {
                Some(Timestamp { year, month, day, hour, minute, second, nanosecond })
            } else {
                None
            }),
    {
        let t = Timestamp { year, month, day, hour, minute, second, nanosecond };
        if t.is_valid() {
            Some(t)
        } else {
            None
        }
    }

    pub fn is_valid(&self) -> (r: bool)
        ensures
            r == self.valid(),
    {
        if self.year > 9999 || self.month < 1 || self.month > 12 || self.day < 1 {
            return false;
        }
        let leap = self.year % 4 == 0 && (self.year % 100 != 0 || self.year % 400 == 0);
        let days: u8 = if self.month == 2 {
            if leap {
                29
            } else {
                28
            }
        } else if self.month == 4 || self.month == 6 || self.month == 9 || self.month == 11 {
            30
        } else {
            31
        };
        self.day <= days && self.hour <= 23 && self.minute <= 59 && self.second <= 60
            && self.nanosecond <= 999_999_999
    }

    /// Whether `self` is the same instant as `other` or a later one.
    pub fn is_not_before(&self, other: &Timestamp) -> (r: bool)
        ensures
            r == self.not_before(*other),
    {
        if self.year != other.year {
            self.year > other.year
        } else if self.month != other.month {
            self.month > other.month
        } else if self.day != other.day {
            self.day > other.day
        } else if self.hour != other.hour {
            self.hour > other.hour
        } else if self.minute != other.minute {
            self.minute > other.minute
        } else if self.second != other.second {
            self.second > other.second
        } else {
            self.nanosecond >= other.nanosecond
        }
    }

    /// The later of `self` and `other`.
    pub fn later(&self, other: &Timestamp) -> (r: Timestamp)
        ensures
            r == self.later_of(*other),
            r.not_before(*self),
            r.not_before(*other),
    {
        if self.is_not_before(other) {
            *self
        } else {
            *other
        }
    }

    /// Appends the log form of the timestamp to `s`.
    pub fn push_text(&self, s: &mut String)
        ensures
            final(s)@ == old(s)@ + self.text(),
    {
        push_decimal(s, self.year as u32, 4);
        push_char(s, '-');
        push_decimal(s, self.month as u32, 2);
        push_char(s, '-');
        push_decimal(s, self.day as u32, 2);
        push_char(s, 'T');
        push_decimal(s, self.hour as u32, 2);
        push_char(s, ':');
        push_decimal(s, self.minute as u32, 2);
        push_char(s, ':');
        push_decimal(s, self.second as u32, 2);
        assert(s@ == old(s)@ + self.date_time_text());
        let nanosecond = self.nanosecond;
        if nanosecond == 0 {
        } else if nanosecond % 1_000_000 == 0 {
            push_char(s, '.');
            push_decimal(s, nanosecond / 1_000_000, 3);
        } else if nanosecond % 1_000 == 0 {
            push_char(s, '.');
            push_decimal(s, nanosecond / 1_000, 6);
        } else {
            push_char(s, '.');
            push_decimal(s, nanosecond, 9);
        }
        assert(s@ == old(s)@ + self.date_time_text() + fraction_text(self.nanosecond as nat));
        push_char(s, 'Z');
        assert(s@ == old(s)@ + self.text());
    }

    /// Appends the file-name form of the timestamp to `s`.
    pub fn push_file_stamp(&self, s: &mut String)
        ensures
            final(s)@ == old(s)@ + self.file_stamp(),
    {
        push_decimal(s, self.year as u32, 4);
        push_char(s, '-');
        push_decimal(s, self.month as u32, 2);
        push_char(s, '-');
        push_decimal(s, self.day as u32, 2);
        push_char(s, '_');
        push_decimal(s, self.hour as u32, 2);
        push_char(s, '-');
        push_decimal(s, self.minute as u32, 2);
        push_char(s, '-');
        push_decimal(s, self.second as u32, 2);
        assert(s@ == old(s)@ + self.file_stamp());
    }
}

/// The calendar fields of an instant in UTC, as the `chrono` crate reports
/// them. A leap second is reported as second 59 with a billion or more
/// nanoseconds.
#[derive(Clone, Copy, Debug, PartialEq, Eq, Structural)]
pub struct ClockReading {
    pub year: i32,
    pub month: u32,
    pub day: u32,
    pub hour: u32,
    pub minute: u32,
    pub second: u32,
    pub nanosecond: u32,
}

/// The calendar fields that `chrono` gives for the instant that lies the
/// given seconds and nanoseconds after the start of 1970 in UTC; `None`
/// where it has no date for them.
pub uninterp spec fn civil_reading(seconds: int, nanoseconds: int) -> Option<ClockReading>;

/// Turns seconds and nanoseconds since the start of 1970 into calendar
/// fields.
///
/// Calls `chrono::DateTime::<Utc>::from_timestamp`, which returns `None`
/// for an instant out of its range and never panics, and reads the
/// fields of the result with the accessors of `Datelike` and `Timelike`.
/// The calendar arithmetic depends on the two numbers alone; the contract
/// only names its result.
#[verifier::external_body]
fn read_calendar(seconds: i64, nanoseconds: u32) -> (r: Option<ClockReading>)
    ensures
        r == civil_reading(seconds as int, nanoseconds as int),
{
    let t = chrono::DateTime::<chrono::Utc>::from_timestamp(seconds, nanoseconds)?;
    Some(
        ClockReading {
            year: t.year(),
            month: t.month(),
            day: t.day(),
            hour: t.hour(),
            minute: t.minute(),
            second: t.second(),
            nanosecond: t.nanosecond(),
        },
    )
}

/// The timestamp that a reading stands for: a leap second becomes second
/// 60, and a reading outside the years 0 to 9999 or with a field out of
/// range stands for none.
pub open spec fn reading_timestamp(reading: ClockReading) -> Option<Timestamp> {
    let leap = reading.nanosecond >= 1_000_000_000;
    let second = if leap {
        reading.second + 1
    } else {
        reading.second as int
    };
    let nanosecond = if leap {
        reading.nanosecond - 1_000_000_000
    } else {
        reading.nanosecond as int
    };
    let stamp = Timestamp {
        year: reading.year as u16,
        month: reading.month as u8,
        day: reading.day as u8,
        hour: reading.hour as u8,
        minute: reading.minute as u8,
        second: second as u8,
        nanosecond: nanosecond as u32,
    };
    if 0 <= reading.year <= 9999 && reading.month <= 12 && reading.day <= 31 && reading.hour <= 23
        && reading.minute <= 59 && second <= 60 && stamp.valid() {
        Some(stamp)
    } else {
        None
    }
}

/// The timestamp of the instant that lies the given seconds and
/// nanoseconds after the start of 1970 in UTC.
pub open spec fn unix_timestamp(seconds: int, nanoseconds: int) -> Option<Timestamp> {
    match civil_reading(seconds, nanoseconds) {
        Some(reading) => reading_timestamp(reading),
        None => None,
    }
}

impl Timestamp {
    /// The timestamp that a reading of calendar fields stands for.
    pub fn from_reading(reading: ClockReading) -> (r: Option<Timestamp>)
        ensures
            r == reading_timestamp(reading),
            r matches Some(t) ==> t.valid(),
    {
        let leap = reading.nanosecond >= 1_000_000_000;
        if reading.year < 0 || reading.year > 9999 || reading.month > 12 || reading.day > 31
            || reading.hour > 23 || reading.minute > 59 || reading.second > 60 {
            return None;
        }
        let second: u32 = if leap {
            reading.second + 1
        } else {
            reading.second
        };
        let nanosecond: u32 = if leap {
            reading.nanosecond - 1_000_000_000
        } else {
            reading.nanosecond
        };
        if second > 60 {
            return None;
        }
        Timestamp::new(
            reading.year as u16,
            reading.month as u8,
            reading.day as u8,
            reading.hour as u8,
            reading.minute as u8,
            second as u8,
            nanosecond,
        )
    }

    /// The timestamp of the instant that lies `seconds` and
    /// `nanoseconds` after the start of 1970 in UTC, where it has a year
    /// of four digits.
    pub fn from_unix(seconds: i64, nanoseconds: u32) -> (r: Option<Timestamp>)
        ensures
            r == unix_timestamp(seconds as int, nanoseconds as int),
            r matches Some(t) ==> t.valid(),
    {
        match read_calendar(seconds, nanoseconds) {
            Some(reading) => Timestamp::from_reading(reading),
            None => None,
        }
    }
}

/// The order of instants is total: of two, one is not before the other.
pub proof fn lemma_order_total(a: Timestamp, b: Timestamp)
    ensures
        a.not_before(b) || b.not_before(a),
        a.not_before(a),
        a.later_of(b).not_before(a),
        a.later_of(b).not_before(b),
{
}

/// Reads the fraction of a second and the closing `Z` written in `chars`
/// from `pos` on.
fn read_fraction(chars: &Vec<char>, pos: usize) -> (r: Option<(u32, usize)>)
    requires
        pos <= chars.len(),
    ensures
        match take_fraction(chars@.skip(pos as int)) {
            Some((nanosecond, taken)) => r == Some((nanosecond as u32, (pos + taken) as usize))
                && pos + taken <= chars.len() && nanosecond <= 999_999_999,
            None => r is None,
        },
{
    let n = chars.len();
    let left = n - pos;
    let ghost t = chars@.skip(pos as int);
    if left >= 1 && chars[pos] == 'Z' {
        Some((0, pos + 1))
    } else if left >= 5 && chars[pos] == '.' && chars[pos + 4] == 'Z' {
        assert(t.subrange(1, 4) == chars@.subrange(pos + 1, pos + 1 + 3));
        proof {
            if all_digits(t.subrange(1, 4)) {
                crate::text::lemma_digits_value_bound(t.subrange(1, 4));
                reveal_with_fuel(pow10, 4);
            }
        }
        match read_decimal(chars, pos + 1, 3) {
            Some(v) => Some((v * 1_000_000, pos + 5)),
            None => None,
        }
    } else if left >= 8 && chars[pos] == '.' && chars[pos + 7] == 'Z' {
        assert(t.subrange(1, 7) == chars@.subrange(pos + 1, pos + 1 + 6));
        proof {
            if all_digits(t.subrange(1, 7)) {
                crate::text::lemma_digits_value_bound(t.subrange(1, 7));
                reveal_with_fuel(pow10, 7);
            }
        }
        match read_decimal(chars, pos + 1, 6) {
            Some(v) => Some((v * 1_000, pos + 8)),
            None => None,
        }
    } else if left >= 11 && chars[pos] == '.' && chars[pos + 10] == 'Z' {
        assert(t.subrange(1, 10) == chars@.subrange(pos + 1, pos + 1 + 9));
        proof {
            if all_digits(t.subrange(1, 10)) {
                crate::text::lemma_digits_value_bound(t.subrange(1, 10));
                reveal_with_fuel(pow10, 10);
            }
        }
        match read_decimal(chars, pos + 1, 9) {
            Some(v) => Some((v, pos + 11)),
            None => None,
        }
    } else {
        None
    }
}

/// Reads the timestamp written in `chars` from `pos` on, and gives it with
/// the position after it.
pub fn read_timestamp(chars: &Vec<char>, pos: usize) -> (r: Option<(Timestamp, usize)>)
    requires
        pos <= chars.len(),
    ensures
        match take_timestamp(chars@.skip(pos as int)) {
            Some((ts, taken)) => r == Some((ts, (pos + taken) as usize)) && pos + taken
                <= chars.len(),
            None => r is None,
        },
{
    let n = chars.len();
    proof {
        reveal(take_timestamp);
    }
    if n - pos < 19 {
        return None;
    }
    let ghost t = chars@.skip(pos as int);
    proof {
        assert(t.subrange(0, 4) == chars@.subrange(pos as int, pos + 4));
        assert(t.subrange(5, 7) == chars@.subrange(pos + 5, pos + 5 + 2));
        assert(t.subrange(8, 10) == chars@.subrange(pos + 8, pos + 8 + 2));
        assert(t.subrange(11, 13) == chars@.subrange(pos + 11, pos + 11 + 2));
        assert(t.subrange(14, 16) == chars@.subrange(pos + 14, pos + 14 + 2));
        assert(t.subrange(17, 19) == chars@.subrange(pos + 17, pos + 17 + 2));
        assert(t.skip(19) == chars@.skip(pos + 19));
        reveal_with_fuel(pow10, 5);
        if all_digits(t.subrange(0, 4)) {
            crate::text::lemma_digits_value_bound(t.subrange(0, 4));
        }
        if all_digits(t.subrange(5, 7)) {
            crate::text::lemma_digits_value_bound(t.subrange(5, 7));
        }
        if all_digits(t.subrange(8, 10)) {
            crate::text::lemma_digits_value_bound(t.subrange(8, 10));
        }
        if all_digits(t.subrange(11, 13)) {
            crate::text::lemma_digits_value_bound(t.subrange(11, 13));
        }
        if all_digits(t.subrange(14, 16)) {
            crate::text::lemma_digits_value_bound(t.subrange(14, 16));
        }
        if all_digits(t.subrange(17, 19)) {
            crate::text::lemma_digits_value_bound(t.subrange(17, 19));
        }
    }
    let year = match read_decimal(chars, pos, 4) {
        Some(v) => v,
        None => { return None; },
    };
    let month = match read_decimal(chars, pos + 5, 2) {
        Some(v) => v,
        None => { return None; },
    };
    let day = match read_decimal(chars, pos + 8, 2) {
        Some(v) => v,
        None => { return None; },
    };
    let hour = match read_decimal(chars, pos + 11, 2) {
        Some(v) => v,
        None => { return None; },
    };
    let minute = match read_decimal(chars, pos + 14, 2) {
        Some(v) => v,
        None => { return None; },
    };
    let second = match read_decimal(chars, pos + 17, 2) {
        Some(v) => v,
        None => { return None; },
    };
    if chars[pos + 4] != '-' || chars[pos + 7] != '-' || chars[pos + 10] != 'T' || chars[pos + 13]
        != ':' || chars[pos + 16] != ':' {
        return None;
    }
    assert(starts_with_date_time(t));
    match read_fraction(chars, pos + 19) {
        Some((nanosecond, end)) => Some(
            (
                Timestamp {
                    year: year as u16,
                    month: month as u8,
                    day: day as u8,
                    hour: hour as u8,
                    minute: minute as u8,
                    second: second as u8,
                    nanosecond,
                },
                end,
            ),
        ),
        None => None,
    }
}

proof fn lemma_digit_is_not_z(value: nat, width: nat, i: int)
    requires
        0 <= i < width,
    ensures
        decimal(value, width)[i] != 'Z',
        decimal(value, width)[i] != '.',
{
    lemma_decimal_len(value, width);
}

proof fn lemma_fraction_round_trip(nanosecond: nat, rest: Seq<char>)
    requires
        nanosecond <= 999_999_999,
    ensures
        take_fraction(fraction_text(nanosecond) + seq!['Z'] + rest) == Some(
            (nanosecond, fraction_text(nanosecond).len() + 1),
        ),
{
    let t = fraction_text(nanosecond) + seq!['Z'] + rest;
    reveal_with_fuel(pow10, 10);
    if nanosecond == 0 {
        assert(t[0] == 'Z');
    } else if nanosecond % 1_000_000 == 0 {
        let v = nanosecond / 1_000_000;
        lemma_decimal_len(v, 3);
        lemma_decimal_round_trip(v, 3);
        assert(t.subrange(1, 4) == decimal(v, 3));
        assert(t[0] == '.');
        assert(t[4] == 'Z');
    } else if nanosecond % 1_000 == 0 {
        let v = nanosecond / 1_000;
        lemma_decimal_len(v, 6);
        lemma_decimal_round_trip(v, 6);
        assert(t.subrange(1, 7) == decimal(v, 6));
        assert(t[0] == '.');
        assert(t[4] == decimal(v, 6)[3]);
        lemma_digit_is_not_z(v, 6, 3);
        assert(t[7] == 'Z');
    } else {
        let v = nanosecond;
        lemma_decimal_len(v, 9);
        lemma_decimal_round_trip(v, 9);
        assert(t.subrange(1, 10) == decimal(v, 9));
        assert(t[0] == '.');
        assert(t[4] == decimal(v, 9)[3]);
        assert(t[7] == decimal(v, 9)[6]);
        lemma_digit_is_not_z(v, 9, 3);
        lemma_digit_is_not_z(v, 9, 6);
        assert(t[10] == 'Z');
    }
}

/// Reading a written timestamp gives the same timestamp back, whatever
/// follows it in the text.
pub proof fn lemma_timestamp_round_trip(ts: Timestamp, rest: Seq<char>)
    requires
        ts.valid(),
    ensures
        take_timestamp(ts.text() + rest) == Some((ts, ts.text().len())),
{
    let t = ts.text() + rest;
    let tail = fraction_text(ts.nanosecond as nat) + seq!['Z'] + rest;
    reveal(take_timestamp);
    reveal_with_fuel(pow10, 5);
    lemma_decimal_len(ts.year as nat, 4);
    lemma_decimal_len(ts.month as nat, 2);
    lemma_decimal_len(ts.day as nat, 2);
    lemma_decimal_len(ts.hour as nat, 2);
    lemma_decimal_len(ts.minute as nat, 2);
    lemma_decimal_len(ts.second as nat, 2);
    lemma_decimal_round_trip(ts.year as nat, 4);
    lemma_decimal_round_trip(ts.month as nat, 2);
    lemma_decimal_round_trip(ts.day as nat, 2);
    lemma_decimal_round_trip(ts.hour as nat, 2);
    lemma_decimal_round_trip(ts.minute as nat, 2);
    lemma_decimal_round_trip(ts.second as nat, 2);
    assert(ts.date_time_text().len() == 19);
    assert(t == ts.date_time_text() + tail);
    assert(t.subrange(0, 4) == decimal(ts.year as nat, 4));
    assert(t.subrange(5, 7) == decimal(ts.month as nat, 2));
    assert(t.subrange(8, 10) == decimal(ts.day as nat, 2));
    assert(t.subrange(11, 13) == decimal(ts.hour as nat, 2));
    assert(t.subrange(14, 16) == decimal(ts.minute as nat, 2));
    assert(t.subrange(17, 19) == decimal(ts.second as nat, 2));
    assert(t[4] == '-' && t[7] == '-' && t[10] == 'T' && t[13] == ':' && t[16] == ':');
    assert(t.skip(19) == tail);
    lemma_fraction_round_trip(ts.nanosecond as nat, rest);
}

} // verus!
