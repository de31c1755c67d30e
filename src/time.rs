use vstd::prelude::*;

verus! {

/// Earliest year a calendar time can carry.
pub const MIN_YEAR: i32 = -262143;

/// Latest year a calendar time can carry.
pub const MAX_YEAR: i32 = 262142;

pub open spec fn is_leap_year(y: int) -> bool {
    (y % 4 == 0 && y % 100 != 0) || y % 400 == 0
}

pub open spec fn days_in_month(y: int, m: int) -> int {
    if m == 2 {
        if is_leap_year(y) {
            29
        } else {
            28
        }
    } else if m == 4 || m == 6 || m == 9 || m == 11 {
        30
    } else {
        31
    }
}

/// The six values name a second of the proleptic Gregorian calendar.
pub open spec fn valid_time(y: int, mo: int, d: int, h: int, mi: int, s: int) -> bool {
    &&& MIN_YEAR <= y <= MAX_YEAR
    &&& 1 <= mo <= 12
    &&& 1 <= d <= days_in_month(y, mo)
    &&& 0 <= h < 24
    &&& 0 <= mi < 60
    &&& 0 <= s < 60
}

/// A calendar time in UTC, to the second.
#[derive(Debug, Clone, Copy, PartialEq, Eq, Structural)]
pub struct Timestamp {
    pub year: i32,
    pub month: u32,
    pub day: u32,
    pub hour: u32,
    pub minute: u32,
    pub second: u32,
}

impl Timestamp {
    pub open spec fn wf(&self) -> bool {
        valid_time(
            self.year as int,
            self.month as int,
            self.day as int,
            self.hour as int,
            self.minute as int,
            self.second as int,
        )
    }

    /// The calendar time, or `None` where the values name no second of the calendar.
    pub fn new(year: i32, month: u32, day: u32, hour: u32, minute: u32, second: u32) -> (r: Option<
        Timestamp,
    >)
        ensures
            r is Some <==> valid_time(
                year as int,
                month as int,
                day as int,
                hour as int,
                minute as int,
                second as int,
            ),
            match r {
                Some(t) => t.wf() && t == (Timestamp { year, month, day, hour, minute, second }),
                None => true,
            },
    {
        if year < MIN_YEAR || year > MAX_YEAR || month < 1 || month > 12 || hour >= 24 || minute
            >= 60 || second >= 60 {
            return None;
        }
        // Shifting by a multiple of 400 keeps the leap-year rule and makes the year non-negative.
        let y: u64 = (year as i64 + 400000) as u64;
        assert(y as int == year + 400000);
        assert((y % 4 == 0) == (year % 4 == 0));
        assert((y % 100 == 0) == (year % 100 == 0));
        assert((y % 400 == 0) == (year % 400 == 0));
        let leap = (y % 4 == 0 && y % 100 != 0) || y % 400 == 0;
        let days: u32 = if month == 2 {
            if leap {
                29
            } else {
                28
            }
        } else if month == 4 || month == 6 || month == 9 || month == 11 {
            30
        } else {
            31
        };
        if day < 1 || day > days {
            return None;
        }
        Some(Timestamp { year, month, day, hour, minute, second })
    }
}

/// What chrono renders a valid calendar time as under `%Y,%m,%d,%H,%M,%S`.
pub uninterp spec fn time_text(y: int, mo: int, d: int, h: int, mi: int, s: int) -> Seq<char>;

pub open spec fn timestamp_text(t: Timestamp) -> Seq<char> {
    time_text(
        t.year as int,
        t.month as int,
        t.day as int,
        t.hour as int,
        t.minute as int,
        t.second as int,
    )
}

/// Relies on chrono: `NaiveDate::from_ymd_opt` and `NaiveDate::and_hms_opt`
/// accept every valid calendar time, and `NaiveDateTime::format` with
/// `%Y,%m,%d,%H,%M,%S` renders it; the text depends on the six values alone.
#[verifier::external_body]
pub(crate) fn format_time(t: &Timestamp) -> (r: String)
    requires
        t.wf(),
    ensures
        r@ == time_text(
            t.year as int,
            t.month as int,
            t.day as int,
            t.hour as int,
            t.minute as int,
            t.second as int,
        ),
{
    let date = chrono::NaiveDate::from_ymd_opt(t.year, t.month, t.day).unwrap();
    let time = date.and_hms_opt(t.hour, t.minute, t.second).unwrap();
    time.format("%Y,%m,%d,%H,%M,%S").to_string()
}

} // verus!
