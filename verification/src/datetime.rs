use vstd::prelude::*;
use chrono::{Datelike, Timelike};
use crate::text::{decimal, digit_char};

verus! {

/// Earliest year chrono's calendar dates can hold.
pub const MIN_YEAR: i32 = -262143;

/// Latest year chrono's calendar dates can hold.
pub const MAX_YEAR: i32 = 262142;

/// Calendar date and time of day as (year, month, day, hour, minute, second).
pub type DateTimeParts = (int, int, int, int, int, int);

/// Leap years of the proleptic Gregorian calendar.
pub open spec fn is_leap_year(y: int) -> bool {
    (y % 4 == 0 && y % 100 != 0) || y % 400 == 0
}

/// Number of days in month `m` (1..=12) of year `y`.
pub open spec fn days_in_month(y: int, m: int) -> int {
    if m == 2 {
        if is_leap_year(y) { 29 } else { 28 }
    } else if m == 4 || m == 6 || m == 9 || m == 11 {
        30
    } else {
        31
    }
}

/// The parts name an existing date in chrono's range and a time of day
/// with whole seconds.
pub open spec fn is_valid_parts(p: DateTimeParts) -> bool {
    &&& MIN_YEAR <= p.0 <= MAX_YEAR
    &&& 1 <= p.1 <= 12
    &&& 1 <= p.2 <= days_in_month(p.0, p.1)
    &&& 0 <= p.3 < 24
    &&& 0 <= p.4 < 60
    &&& 0 <= p.5 < 60
}

/// Two zero-padded decimal digits of `n` (0..=99).
pub open spec fn pad2(n: int) -> Seq<char> {
    seq![digit_char(n / 10), digit_char(n % 10)]
}

/// `s` padded on the left with zeros to at least `width` characters.
pub open spec fn zero_pad(s: Seq<char>, width: nat) -> Seq<char> {
    if s.len() >= width {
        s
    } else {
        Seq::new((width - s.len()) as nat, |i: int| '0') + s
    }
}

/// A year as chrono's `%Y` writes it: four zero-padded digits for 0..=9999,
/// otherwise a sign followed by at least four digits.
pub open spec fn year_text(y: int) -> Seq<char> {
    if 0 <= y <= 9999 {
        zero_pad(decimal(y as nat), 4)
    } else if y < 0 {
        seq!['-'] + zero_pad(decimal((-y) as nat), 4)
    } else {
        seq!['+'] + zero_pad(decimal(y as nat), 4)
    }
}

/// The text of `%H:%M:%S`.
pub open spec fn clock_text(p: DateTimeParts) -> Seq<char> {
    pad2(p.3) + seq![':'] + pad2(p.4) + seq![':'] + pad2(p.5)
}

/// The text of `%Y-%m-%d %H:%M:%S`, the form in which messages carry their time.
pub open spec fn iso_text(p: DateTimeParts) -> Seq<char> {
    year_text(p.0) + seq!['-'] + pad2(p.1) + seq!['-'] + pad2(p.2) + seq![' '] + clock_text(p)
}

/// The text of `%d.%m.%Y %H:%M:%S`, the form the server table shows.
pub open spec fn dotted_text(p: DateTimeParts) -> Seq<char> {
    pad2(p.2) + seq!['.'] + pad2(p.1) + seq!['.'] + year_text(p.0) + seq![' '] + clock_text(p)
}

/// A local calendar date and time of day, to the second.
#[derive(Clone, Copy, Debug)]
pub struct MsgDateTime {
    year: i32,
    month: u32,
    day: u32,
    hour: u32,
    minute: u32,
    second: u32,
}

impl View for MsgDateTime {
    type V = DateTimeParts;

    closed spec fn view(&self) -> DateTimeParts {
        (
            self.year as int,
            self.month as int,
            self.day as int,
            self.hour as int,
            self.minute as int,
            self.second as int,
        )
    }
}

impl MsgDateTime {
    #[verifier::type_invariant]
    closed spec fn wf(self) -> bool {
        is_valid_parts(self@)
    }

    /// The date and time with the given parts, if they name a valid one.
    pub fn from_parts(year: i32, month: u32, day: u32, hour: u32, minute: u32, second: u32) -> (r:
        Option<MsgDateTime>)
        ensures
            r is Some <==> is_valid_parts(
                (year as int, month as int, day as int, hour as int, minute as int, second as int),
            ),
            r matches Some(dt) ==> dt@ == (
                year as int,
                month as int,
                day as int,
                hour as int,
                minute as int,
                second as int,
            ),
    {
        if year < MIN_YEAR || year > MAX_YEAR || month < 1 || month > 12 || day < 1 || hour >= 24
            || minute >= 60 || second >= 60 {
            return None;
        }
        let leap = (year % 4 == 0 && year % 100 != 0) || year % 400 == 0;
        proof {
            assert(leap == is_leap_year(year as int));
        }
        let month_days: u32 = if month == 2 {
            if leap { 29 } else { 28 }
        } else if month == 4 || month == 6 || month == 9 || month == 11 {
            30
        } else {
            31
        };
        if day > month_days {
            return None;
        }
        Some(MsgDateTime { year, month, day, hour, minute, second })
    }

    pub fn year(&self) -> (r: i32)
        ensures
            r as int == self@.0,
    {
        self.year
    }

    pub fn month(&self) -> (r: u32)
        ensures
            r as int == self@.1,
    {
        self.month
    }

    pub fn day(&self) -> (r: u32)
        ensures
            r as int == self@.2,
    {
        self.day
    }

    pub fn hour(&self) -> (r: u32)
        ensures
            r as int == self@.3,
    {
        self.hour
    }

    pub fn minute(&self) -> (r: u32)
        ensures
            r as int == self@.4,
    {
        self.minute
    }

    pub fn second(&self) -> (r: u32)
        ensures
            r as int == self@.5,
    {
        self.second
    }
}

#[verifier::external_type_specification]
#[verifier::external_body]
pub struct ExSystemTime(std::time::SystemTime);

/// Reads the system clock with std's `SystemTime::now`. Nothing is stated of
/// the reading.
#[verifier::external_body]
fn system_now() -> std::time::SystemTime {
    std::time::SystemTime::now()
}

/// How far a clock reading lies from the Unix epoch, by std's
/// `SystemTime::duration_since(UNIX_EPOCH)`: `Ok` with whole seconds and
/// nanoseconds after it, or, for a reading before it, `Err` with the distance
/// before it (`SystemTimeError::duration`). std documents `subsec_nanos` as
/// always below one billion.
#[verifier::external_body]
fn since_unix_epoch(t: &std::time::SystemTime) -> (r: Result<(u64, u32), (u64, u32)>)
    ensures
        r matches Ok((_, n)) ==> n < 1_000_000_000,
        r matches Err((_, n)) ==> n < 1_000_000_000,
{
    match t.duration_since(std::time::UNIX_EPOCH) {
        Ok(d) => Ok((d.as_secs(), d.subsec_nanos())),
        Err(e) => Err((e.duration().as_secs(), e.duration().subsec_nanos())),
    }
}

/// The Unix timestamp (seconds, and nanoseconds within the second, counted
/// forward) of a distance from the epoch, if the seconds fit in an `i64`.
pub open spec fn timestamp_of(reading: Result<(u64, u32), (u64, u32)>) -> Option<(int, int)> {
    match reading {
        Ok((s, n)) => if s <= i64::MAX { Some((s as int, n as int)) } else { None },
        Err((s, n)) => if n == 0 {
            if s <= i64::MAX { Some((-s, 0)) } else { None }
        } else {
            if s < i64::MAX { Some((-s - 1, 1_000_000_000 - n)) } else { None }
        },
    }
}

/// The Unix timestamp of a distance from the epoch (see `timestamp_of`).
pub fn unix_timestamp(reading: Result<(u64, u32), (u64, u32)>) -> (r: Option<(i64, u32)>)
    requires
        reading matches Ok((_, n)) ==> n < 1_000_000_000,
        reading matches Err((_, n)) ==> n < 1_000_000_000,
    ensures
        r matches Some((s, n)) ==> timestamp_of(reading) == Some((s as int, n as int)),
        r is None <==> timestamp_of(reading) is None,
{
    match reading {
        Ok((s, n)) => if s <= i64::MAX as u64 { Some((s as i64, n)) } else { None },
        Err((s, n)) => if n == 0 {
            if s <= i64::MAX as u64 { Some((-(s as i64), 0)) } else { None }
        } else {
            if s < i64::MAX as u64 { Some((-(s as i64) - 1, 1_000_000_000 - n)) } else { None }
        },
    }
}

/// The local date and time of day, to the second, at a Unix timestamp, by
/// chrono: `DateTime::from_timestamp` (no value outside chrono's range), then
/// `with_timezone(&Local)`, then the UTC time moved by the local offset with
/// `checked_add_offset` (no value when that leaves chrono's range). chrono's
/// calendar accessors then give a valid date in its range and a time of day
/// with whole seconds. Which offset the machine's time zone gives is not
/// stated. chrono falls back to UTC when no time-zone data can be loaded; its
/// lookup panics (the `unwrap` in `Local::offset_from_utc_datetime`) when the
/// data gives an offset of a day or more, which no input here can rule out.
#[verifier::external_body]
fn local_date_time_at(secs: i64, nanos: u32) -> (r: Option<MsgDateTime>)
    ensures
        r matches Some(dt) ==> is_valid_parts(dt@),
{
    let utc = chrono::DateTime::from_timestamp(secs, nanos)?;
    let local = utc.with_timezone(&chrono::Local);
    let t = local.naive_utc().checked_add_offset(*local.offset())?;
    Some(MsgDateTime {
        year: t.year(),
        month: t.month(),
        day: t.day(),
        hour: t.hour(),
        minute: t.minute(),
        second: t.second(),
    })
}

/// The local date and time now, or `None` when the clock reads a time that
/// chrono's calendar cannot hold.
pub fn local_now() -> (r: Option<MsgDateTime>)
    ensures
        r matches Some(dt) ==> is_valid_parts(dt@),
{
    let now = system_now();
    let reading = since_unix_epoch(&now);
    match unix_timestamp(reading) {
        Some((secs, nanos)) => local_date_time_at(secs, nanos),
        None => None,
    }
}

/// Formats a date and time with chrono's `NaiveDateTime::format`, after
/// building it with `NaiveDate::from_ymd_opt` and `and_hms_opt` (which succeed
/// on valid parts). For the two patterns this library uses, chrono's
/// specifiers give the text exactly: `%Y` as `year_text`, and `%m`, `%d`, `%H`,
/// `%M`, `%S` as two zero-padded digits.
#[verifier::external_body]
fn chrono_format(dt: &MsgDateTime, pattern: &str) -> (text: String)
    requires
        is_valid_parts(dt@),
        pattern@ == "%Y-%m-%d %H:%M:%S"@ || pattern@ == "%d.%m.%Y %H:%M:%S"@,
    ensures
        pattern@ == "%Y-%m-%d %H:%M:%S"@ ==> text@ == iso_text(dt@),
        pattern@ == "%d.%m.%Y %H:%M:%S"@ ==> text@ == dotted_text(dt@),
{
    let date = chrono::NaiveDate::from_ymd_opt(dt.year, dt.month, dt.day).unwrap();
    let moment = date.and_hms_opt(dt.hour, dt.minute, dt.second).unwrap();
    moment.format(pattern).to_string()
}

/// The text `YYYY-MM-DD HH:MM:SS` under which a message shows its time.
pub fn timestamp_text(dt: &MsgDateTime) -> (s: String)
    ensures
        s@ == iso_text(dt@),
{
    proof {
        use_type_invariant(dt);
    }
    chrono_format(dt, "%Y-%m-%d %H:%M:%S")
}

/// The text `DD.MM.YYYY HH:MM:SS` under which the server table shows a
/// connection time.
pub fn dotted_timestamp_text(dt: &MsgDateTime) -> (s: String)
    ensures
        s@ == dotted_text(dt@),
{
    proof {
        use_type_invariant(dt);
    }
    chrono_format(dt, "%d.%m.%Y %H:%M:%S")
}

} // verus!
