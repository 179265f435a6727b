//! The shift calendar: classifies a timezone-local instant into a 12-hour
//! DAY or NIGHT shift, computes shift start/end epoch seconds and the twelve
//! one-hour sub-windows, and steps to the previous day or previous shift
//! with real calendar arithmetic (month ends, leap years, year rollover).
use crate::text::{all_digits, dec_str, digits_val, lemma_digits_val_bound, lemma_pow10_le,
    pad2_str, parse_uint, pow10, spad2_str, str_eq, u64_pad2, u64_spad2, u64_to_string};
use chrono::{Datelike, TimeZone, Timelike};
use vstd::prelude::*;

verus! {

/// One of the two 12-hour operating shifts.
#[derive(Debug, Clone, Copy, PartialEq, Eq, Structural)]
pub enum Shift {
    Day,
    Night,
}

/// A reporting window: the calendar date the shift starts on, and the shift.
/// A NIGHT shift that ends the next morning is keyed by its start date.
#[derive(Debug, Clone, Copy, PartialEq, Eq, Structural)]
pub struct DateShift(pub i32, pub u32, pub u32, pub Shift);

pub open spec fn is_leap_year(y: int) -> bool {
    (y % 4 == 0 && y % 100 != 0) || y % 400 == 0
}

pub open spec fn days_in_month(y: int, m: int) -> int {
    if m == 2 {
        if is_leap_year(y) {
            29
        } else {
            28
        }
    } else if m == 4 || m == 6 || m == 9 || m == 11 {
        30
    } else {
        31
    }
}

pub open spec fn valid_date(y: int, m: int, d: int) -> bool {
    1 <= m <= 12 && 1 <= d <= days_in_month(y, m)
}

/// The calendar date exactly one day before `(y, m, d)`.
pub open spec fn prev_date(y: int, m: int, d: int) -> (int, int, int) {
    if d > 1 {
        (y, m, d - 1)
    } else if m > 1 {
        (y, m - 1, days_in_month(y, m - 1))
    } else {
        (y - 1, 12, 31)
    }
}

/// The calendar date exactly one day after `(y, m, d)`.
pub open spec fn next_date(y: int, m: int, d: int) -> (int, int, int) {
    if d < days_in_month(y, m) {
        (y, m, d + 1)
    } else if m < 12 {
        (y, m + 1, 1)
    } else {
        (y + 1, 1, 1)
    }
}

/// Stepping back one day always lands on a valid date, and stepping forward
/// again returns to the starting date: `prev_date` moves exactly one
/// calendar day, across month ends, year ends and leap days.
pub proof fn lemma_prev_date_one_day_back(y: int, m: int, d: int)
    requires
        valid_date(y, m, d),
    ensures
        valid_date(prev_date(y, m, d).0, prev_date(y, m, d).1, prev_date(y, m, d).2),
        next_date(prev_date(y, m, d).0, prev_date(y, m, d).1, prev_date(y, m, d).2) == (y, m, d),
{
}

/// Rendering of a date as `YYYY-MM-DD` (the year unpadded, as the source
/// data keeps four-digit years).
pub open spec fn date_str(y: int, m: int, d: int) -> Seq<char> {
    dec_str(y) + seq!['-'] + pad2_str(m) + seq!['-'] + pad2_str(d)
}

impl Shift {
    /// The request-parameter spelling of the shift.
    pub open spec fn spec_name(self) -> Seq<char> {
        match self {
            Shift::Day => "DAY"@,
            Shift::Night => "NIGHT"@,
        }
    }

    /// Renders the shift as `DAY` or `NIGHT`.
    pub fn to_string(&self) -> (r: String)
        ensures
            r@ == self.spec_name(),
    {
        match self {
            Shift::Day => {
                let mut s = String::new();
                s.append("DAY");
                s
            },
            Shift::Night => {
                let mut s = String::new();
                s.append("NIGHT");
                s
            },
        }
    }
}

/// The month length as an executable function.
pub fn month_length(year: i32, month: u32) -> (r: u32)
    requires
        1 <= month <= 12,
        0 <= year,
    ensures
        r as int == days_in_month(year as int, month as int),
{
    if month == 2 {
        if (year % 4 == 0 && year % 100 != 0) || year % 400 == 0 {
            29
        } else {
            28
        }
    } else if month == 4 || month == 6 || month == 9 || month == 11 {
        30
    } else {
        31
    }
}

/// The date one calendar day earlier, by real calendar arithmetic.
pub fn pre_day_from_int(year: i32, month: u32, day: u32) -> (r: (i32, u32, u32))
    requires
        valid_date(year as int, month as int, day as int),
        1 <= year,
    ensures
        (r.0 as int, r.1 as int, r.2 as int) == prev_date(year as int, month as int, day as int),
{
    if day > 1 {
        (year, month, day - 1)
    } else if month > 1 {
        (year, month - 1, month_length(year, month - 1))
    } else {
        (year - 1, 12, 31)
    }
}

impl DateShift {
    pub open spec fn wf(self) -> bool {
        valid_date(self.0 as int, self.1 as int, self.2 as int)
    }

    /// Renders the window's date as `YYYY-MM-DD`.
    pub fn date(&self) -> (r: String)
        requires
            0 <= self.0,
            self.1 < 100,
            self.2 < 100,
        ensures
            r@ == date_str(self.0 as int, self.1 as int, self.2 as int),
    {
        let mut s = u64_to_string(self.0 as u64);
        s.append("-");
        let m = u64_pad2(self.1 as u64);
        s.append(m.as_str());
        s.append("-");
        let d = u64_pad2(self.2 as u64);
        s.append(d.as_str());
        proof {
            reveal_strlit("-");
            assert(s@ =~= date_str(self.0 as int, self.1 as int, self.2 as int));
        }
        s
    }

    pub fn shift(&self) -> (r: Shift)
        ensures
            r == self.3,
    {
        self.3
    }

    /// The same shift kind, one calendar day earlier.
    pub fn pre_day(&self) -> (r: Self)
        requires
            self.wf(),
            1 <= self.0,
        ensures
            (r.0 as int, r.1 as int, r.2 as int) == prev_date(
                self.0 as int,
                self.1 as int,
                self.2 as int,
            ),
            r.3 == self.3,
            r.wf(),
            0 <= r.0,
    {
        proof {
            lemma_prev_date_one_day_back(self.0 as int, self.1 as int, self.2 as int);
        }
        let (year, month, day) = pre_day_from_int(self.0, self.1, self.2);
        DateShift(year, month, day, self.3)
    }

    /// The shift immediately before this one: a DAY is preceded by the NIGHT
    /// keyed to the previous date; a NIGHT is preceded by the DAY of the
    /// same date (the NIGHT's key already names the earlier evening).
    pub fn pre_shift(&self) -> (r: Self)
        requires
            self.wf(),
            1 <= self.0,
        ensures
            self.3 is Day ==> (r.0 as int, r.1 as int, r.2 as int) == prev_date(
                self.0 as int,
                self.1 as int,
                self.2 as int,
            ) && r.3 is Night,
            self.3 is Night ==> r == DateShift(self.0, self.1, self.2, Shift::Day),
            r.wf(),
            0 <= r.0,
    {
        proof {
            lemma_prev_date_one_day_back(self.0 as int, self.1 as int, self.2 as int);
        }
        match self.3 {
            Shift::Day => {
                let (year, month, day) = pre_day_from_int(self.0, self.1, self.2);
                DateShift(year, month, day, Shift::Night)
            },
            Shift::Night => DateShift(self.0, self.1, self.2, Shift::Day),
        }
    }
}

/// The three wall-clock ranges of the classification tile the whole day:
/// every hour-minute value of a day falls in exactly one of the DAY range,
/// the evening NIGHT range, and the morning NIGHT tail. The classification
/// below is total because of this, with no fallback branch.
pub proof fn lemma_shift_ranges_tile(h: int, m: int)
    requires
        0 <= h < 24,
        0 <= m < 60,
    ensures
        ({
            let hm = h * 100 + m;
            let in_day = 730 <= hm < 1930;
            let in_evening = 1930 <= hm;
            let in_morning = hm < 730;
            (in_day || in_evening || in_morning) && !(in_day && in_evening) && !(in_day
                && in_morning) && !(in_evening && in_morning)
        }),
{
}

/// Classifies a local wall-clock instant into its reporting window.
/// `[07:30, 19:30)` belongs to that date's DAY shift; `[19:30, 24:00)` to
/// that date's NIGHT shift; `[00:00, 07:30)` is the tail of the NIGHT shift
/// keyed to the previous date. The three ranges tile the whole day, so the
/// classification is total.
pub fn shift_of_local(year: i32, month: u32, day: u32, hour: u32, minute: u32) -> (r: DateShift)
    requires
        valid_date(year as int, month as int, day as int),
        1 <= year,
        hour < 24,
        minute < 60,
    ensures
        730 <= hour * 100 + minute < 1930 ==> r == DateShift(year, month, day, Shift::Day),
        1930 <= hour * 100 + minute ==> r == DateShift(year, month, day, Shift::Night),
        hour * 100 + minute < 730 ==> (r.0 as int, r.1 as int, r.2 as int) == prev_date(
            year as int,
            month as int,
            day as int,
        ) && r.3 is Night,
        r.wf(),
        0 <= r.0,
{
    proof {
        lemma_prev_date_one_day_back(year as int, month as int, day as int);
    }
    let h_m = hour * 100 + minute;
    if 730 <= h_m && h_m < 1930 {
        DateShift(year, month, day, Shift::Day)
    } else if 1930 <= h_m {
        DateShift(year, month, day, Shift::Night)
    } else {
        let (py, pm, pd) = pre_day_from_int(year, month, day);
        DateShift(py, pm, pd, Shift::Night)
    }
}

/// The wall-clock hour a shift's first hour slot starts at.
pub open spec fn shift_first_hour(s: Shift) -> int {
    match s {
        Shift::Day => 7,
        Shift::Night => 19,
    }
}

/// The label of one hour slot, `hh:mm - hh:mm` with space-padded hours and
/// zero-padded minutes.
pub open spec fn hour_label(h1: int, m1: int, h2: int, m2: int) -> Seq<char> {
    spad2_str(h1) + seq![':'] + pad2_str(m1) + seq![' ', '-', ' '] + spad2_str(h2) + seq![':']
        + pad2_str(m2)
}

/// The label of hour slot `i` of a shift: slot `i` runs from `i` hours after
/// the shift's start to an hour later, wrapping past midnight.
pub open spec fn hour_slot_label(s: Shift, i: int) -> Seq<char> {
    hour_label(
        (shift_first_hour(s) + i) % 24,
        30,
        (shift_first_hour(s) + i + 1) % 24,
        30,
    )
}

/// The twelve hour-slot labels of a shift, plus a trailing `SUM` label when
/// `sum` is set.
pub fn hours_str(shift: Shift, sum: bool) -> (r: Vec<String>)
    ensures
        r@.len() == if sum {
            13int
        } else {
            12int
        },
        forall|i: int| 0 <= i < 12 ==> (#[trigger] r@[i])@ == hour_slot_label(shift, i),
        sum ==> r@[12]@ == "SUM"@,
{
    let first: u32 = match shift {
        Shift::Day => 7,
        Shift::Night => 19,
    };
    let mut r: Vec<String> = Vec::new();
    let mut i: u32 = 0;
    while i < 12
        invariant
            i <= 12,
            r@.len() == i as int,
            first as int == shift_first_hour(shift),
            first <= 19,
            forall|j: int| 0 <= j < i as int ==> (#[trigger] r@[j])@ == hour_slot_label(shift, j),
        decreases 12 - i,
    {
        let h1 = (first + i) % 24;
        let h2 = (first + i + 1) % 24;
        let mut s = u64_spad2(h1 as u64);
        s.append(":");
        let m1 = u64_pad2(30);
        s.append(m1.as_str());
        s.append(" - ");
        let t = u64_spad2(h2 as u64);
        s.append(t.as_str());
        s.append(":");
        let m2 = u64_pad2(30);
        s.append(m2.as_str());
        proof {
            reveal_strlit(":");
            reveal_strlit(" - ");
            assert(s@ =~= hour_slot_label(shift, i as int));
        }
        r.push(s);
        i += 1;
    }
    if sum {
        let mut s = String::new();
        s.append("SUM");
        r.push(s);
    }
    r
}

/// Relies on chrono's `Utc::now`, conversion with chrono_tz's
/// `Asia::Ho_Chi_Minh`, and chrono's `Datelike` and `Timelike` accessors:
/// whatever instant the machine clock reports, the accessors return a valid
/// proleptic-Gregorian civil date with in-range time-of-day fields, within
/// chrono's representable year range; a common-era clock (every machine
/// clock a process can see in this deployment) keeps the year positive.
/// Nothing more is promised: the value follows the machine clock.
#[verifier::external_body]
fn vn_local_now() -> (r: (i32, u32, u32, u32, u32))
    ensures
        valid_date(r.0 as int, r.1 as int, r.2 as int),
        1 <= r.0 <= 262142,
        r.3 < 24,
        r.4 < 60,
{
    let t = chrono::Utc::now().with_timezone(&chrono_tz::Asia::Ho_Chi_Minh);
    (t.year(), t.month(), t.day(), t.hour(), t.minute())
}

/// The reporting window the current local instant belongs to.
pub fn current_shift() -> (r: DateShift)
    ensures
        r.wf(),
        0 <= r.0,
{
    let (year, month, day, hour, minute) = vn_local_now();
    shift_of_local(year, month, day, hour, minute)
}

/// Relies on chrono's `Utc::now`, conversion with chrono_tz's
/// `Asia::Ho_Chi_Minh` and `DateTime::format`: the current local time,
/// rendered `YYYY-MM-DD HH:MM:SS`. The value follows the machine clock;
/// nothing is promised of it.
#[verifier::external_body]
pub fn now_vn() -> String {
    chrono::Utc::now().with_timezone(&chrono_tz::Asia::Ho_Chi_Minh).format("%Y-%m-%d %H:%M:%S")
        .to_string()
}

/// Parses a date given as three decimal-digit fields, steps back one
/// calendar day, and renders the result as `YYYY-MM-DD`.
pub fn pre_day_str2date(year: &str, month: &str, day: &str) -> (r: String)
    requires
        1 <= year@.len() <= 9,
        all_digits(year@),
        1 <= month@.len() <= 9,
        all_digits(month@),
        1 <= day@.len() <= 9,
        all_digits(day@),
        1 <= digits_val(year@),
        valid_date(digits_val(year@), digits_val(month@), digits_val(day@)),
    ensures
        r@ == date_str(
            prev_date(digits_val(year@), digits_val(month@), digits_val(day@)).0,
            prev_date(digits_val(year@), digits_val(month@), digits_val(day@)).1,
            prev_date(digits_val(year@), digits_val(month@), digits_val(day@)).2,
        ),
{
    proof {
        lemma_digits_val_bound(year@);
        lemma_pow10_le(year@.len(), 9);
        assert(pow10(9) == 1000000000) by {
            reveal_with_fuel(pow10, 10);
        }
        lemma_prev_date_one_day_back(digits_val(year@), digits_val(month@), digits_val(day@));
    }
    let yu = parse_uint(year);
    assert(yu < 2147483648);
    let y = yu as i32;
    let mo = parse_uint(month);
    let d = parse_uint(day);
    let (py, pm, pd) = pre_day_from_int(y, mo, d);
    let pre = DateShift(py, pm, pd, Shift::Day);
    pre.date()
}

/// The previous shift's date and shift name, from string fields: a NIGHT
/// window is preceded by the DAY of the same date (the fields are re-joined
/// unpadded, as given); a DAY window by the NIGHT of the previous date.
pub fn pre_shift_str2date(year: &str, month: &str, day: &str, shift: &str) -> (r: (
    String,
    &'static str,
))
    requires
        shift@ == "NIGHT"@ || shift@ == "DAY"@,
        shift@ == "DAY"@ ==> 1 <= year@.len() <= 9 && all_digits(year@) && 1 <= month@.len() <= 9
            && all_digits(month@) && 1 <= day@.len() <= 9 && all_digits(day@) && 1 <= digits_val(
            year@,
        ) && valid_date(digits_val(year@), digits_val(month@), digits_val(day@)),
    ensures
        shift@ == "NIGHT"@ ==> r.0@ == year@ + seq!['-'] + month@ + seq!['-'] + day@ && r.1@
            == "DAY"@,
        shift@ == "DAY"@ && shift@ != "NIGHT"@ ==> r.0@ == date_str(
            prev_date(digits_val(year@), digits_val(month@), digits_val(day@)).0,
            prev_date(digits_val(year@), digits_val(month@), digits_val(day@)).1,
            prev_date(digits_val(year@), digits_val(month@), digits_val(day@)).2,
        ) && r.1@ == "NIGHT"@,
{
    if str_eq(shift, "NIGHT") {
        let mut s = year.to_owned();
        s.append("-");
        s.append(month);
        s.append("-");
        s.append(day);
        proof {
            reveal_strlit("-");
            assert(s@ =~= year@ + seq!['-'] + month@ + seq!['-'] + day@);
        }
        (s, "DAY")
    } else {
        (pre_day_str2date(year, month, day), "NIGHT")
    }
}

/// The epoch second of a civil time in the report's local timezone
/// (Asia/Ho_Chi_Minh), named but not defined here: the timezone database
/// defines it.
pub uninterp spec fn vn_epoch(year: int, month: int, day: int, hour: int, minute: int) -> int;

/// Relies on chrono_tz's `Asia::Ho_Chi_Minh` with chrono's
/// `TimeZone::with_ymd_and_hms` and `DateTime::timestamp`: Asia/Ho_Chi_Minh
/// has kept a fixed +07:00 offset with no daylight saving since 1975, so a
/// valid civil time in 2000..=2099 maps to exactly one instant, a function
/// of the arguments alone, and its epoch second lies strictly between those
/// of the years 2000 and 2100. The fixed offset also means local time and
/// epoch time advance in lockstep: the 19:30 instant of a date lies exactly
/// twelve hours after its 07:30 instant, and the 07:30 instant of the next
/// calendar date twelve hours after the 19:30 instant.
#[verifier::external_body]
fn epoch_of_vn_local(year: i32, month: u32, day: u32, hour: u32, minute: u32) -> (r: i64)
    requires
        2000 <= year <= 2099,
        valid_date(year as int, month as int, day as int),
        hour < 24,
        minute < 60,
    ensures
        r == vn_epoch(year as int, month as int, day as int, hour as int, minute as int),
        946_000_000 <= r < 4_102_420_000,
        hour == 7 && minute == 30 ==> r + 43200 == vn_epoch(
            year as int,
            month as int,
            day as int,
            19,
            30,
        ),
        hour == 19 && minute == 30 ==> r + 43200 == vn_epoch(
            next_date(year as int, month as int, day as int).0,
            next_date(year as int, month as int, day as int).1,
            next_date(year as int, month as int, day as int).2,
            7,
            30,
        ),
{
    chrono_tz::Asia::Ho_Chi_Minh.with_ymd_and_hms(year, month, day, hour, minute, 0)
        .unwrap()
        .timestamp()
}

/// The local wall-clock hour and minute a shift starts at.
pub open spec fn shift_start_hm(s: Shift) -> (int, int) {
    match s {
        Shift::Day => (7, 30),
        Shift::Night => (19, 30),
    }
}

/// The epoch second a reporting window starts at.
pub open spec fn shift_start_epoch(ds: DateShift) -> int {
    vn_epoch(
        ds.0 as int,
        ds.1 as int,
        ds.2 as int,
        shift_start_hm(ds.3).0,
        shift_start_hm(ds.3).1,
    )
}

/// A window on which epoch arithmetic is defined: a valid date within the
/// years the fixed-offset reliance covers.
pub open spec fn epoch_computable(ds: DateShift) -> bool {
    ds.wf() && 2000 <= ds.0 <= 2099
}

/// The shift's `[start, end)` epoch-second bounds: the local 07:30 (DAY) or
/// 19:30 (NIGHT) of the window's date, and exactly twelve hours later.
/// Consecutive shifts tile time: a DAY window ends where the same date's
/// NIGHT window starts, and a NIGHT window ends where the next calendar
/// date's DAY window starts.
pub fn start_end_of_shift(shift: &DateShift) -> (r: (i64, i64))
    requires
        epoch_computable(*shift),
    ensures
        r.0 == shift_start_epoch(*shift),
        r.1 == r.0 + 43200,
        946_000_000 <= r.0 < 4_102_420_000,
        shift.3 is Day ==> r.1 == shift_start_epoch(
            DateShift(shift.0, shift.1, shift.2, Shift::Night),
        ),
        shift.3 is Night ==> r.1 == vn_epoch(
            next_date(shift.0 as int, shift.1 as int, shift.2 as int).0,
            next_date(shift.0 as int, shift.1 as int, shift.2 as int).1,
            next_date(shift.0 as int, shift.1 as int, shift.2 as int).2,
            7,
            30,
        ),
{
    let (h, m): (u32, u32) = match shift.3 {
        Shift::Day => (7, 30),
        Shift::Night => (19, 30),
    };
    let start_time_stamp = epoch_of_vn_local(shift.0, shift.1, shift.2, h, m);
    (start_time_stamp, start_time_stamp + 12 * 3600)
}

/// Hour bucket `i` of a window: a half-open epoch-second interval starting
/// `i` hours after the shift start.
pub open spec fn hour_bucket(ds: DateShift, i: int) -> (int, int) {
    (shift_start_epoch(ds) + 3600 * i, shift_start_epoch(ds) + 3600 * i + 3600)
}

/// The twelve hour buckets: each spans exactly 3600 seconds, consecutive
/// buckets are contiguous, the first starts at the shift start and the last
/// ends at the shift end, so the buckets exactly tile the 12-hour window.
pub proof fn lemma_hour_buckets_tile(ds: DateShift)
    ensures
        forall|i: int| 0 <= i < 12 ==> #[trigger] hour_bucket(ds, i).1 - hour_bucket(ds, i).0
            == 3600,
        forall|i: int| 0 <= i < 11 ==> #[trigger] hour_bucket(ds, i + 1).0 == hour_bucket(ds, i).1,
        hour_bucket(ds, 0).0 == shift_start_epoch(ds),
        hour_bucket(ds, 11).1 == shift_start_epoch(ds) + 43200,
{
}

/// The twelve hour buckets of the window, as epoch seconds.
pub fn ts_per_hour_shift(shift: &DateShift) -> (r: Vec<(u32, u32)>)
    requires
        epoch_computable(*shift),
    ensures
        r@.len() == 12,
        forall|i: int| 0 <= i < 12 ==> (#[trigger] r@[i]).0 as int == hour_bucket(*shift, i).0
            && r@[i].1 as int == hour_bucket(*shift, i).1,
{
    let (h, m): (u32, u32) = match shift.3 {
        Shift::Day => (7, 30),
        Shift::Night => (19, 30),
    };
    let start_time_stamp = epoch_of_vn_local(shift.0, shift.1, shift.2, h, m) as u32;
    let mut r: Vec<(u32, u32)> = Vec::new();
    let mut i: u32 = 0;
    while i < 12
        invariant
            i <= 12,
            r@.len() == i as int,
            start_time_stamp as int == shift_start_epoch(*shift),
            start_time_stamp < 4_102_420_000,
            forall|j: int| 0 <= j < i as int ==> (#[trigger] r@[j]).0 as int == hour_bucket(
                *shift,
                j,
            ).0 && r@[j].1 as int == hour_bucket(*shift, j).1,
        decreases 12 - i,
    {
        r.push((start_time_stamp + i * 3600, start_time_stamp + i * 3600 + 3600));
        i += 1;
    }
    r
}

} // verus!
