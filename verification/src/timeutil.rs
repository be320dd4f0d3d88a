//! Timestamp helpers.
//!
//! RFC 3339 strings are formatted here.  The civil calendar is defined by
//! [`day_number`]: the number of days between a date and 1970-01-01; converting a
//! day count to a date inverts it.
use crate::text::{decimal, padded, to_decimal, to_padded};
use vstd::prelude::*;

verus! {

/// A UTC timestamp with millisecond resolution.
#[derive(Debug, Clone, Copy, PartialEq, Eq, PartialOrd, Ord, Hash, Structural)]
pub struct UtcStamp {
    millis: u64,
}

impl View for UtcStamp {
    type V = nat;

    closed spec fn view(&self) -> nat {
        self.millis as nat
    }
}

/// Milliseconds on the system clock since the Unix epoch, zero when the clock
/// stands before it.
///
/// Reads `std::time::SystemTime::now`.  Nothing is promised of the value.
#[verifier::external_body]
fn clock_millis() -> (r: u128) {
    std::time::SystemTime::now()
        .duration_since(std::time::UNIX_EPOCH)
        .unwrap_or_default()
        .as_millis()
}

/// A clock reading as a stamp: readings beyond the range are cut off.
pub open spec fn stamp_millis(reading: nat) -> nat {
    if reading > u64::MAX {
        u64::MAX as nat
    } else {
        reading
    }
}

impl UtcStamp {
    /// Builds a stamp from milliseconds since the Unix epoch.
    pub fn from_millis(millis: u64) -> (r: Self)
        ensures
            r@ == millis,
    {
        UtcStamp { millis }
    }

    /// The stamp of a clock reading in milliseconds since the Unix epoch.
    pub fn from_clock(reading: u128) -> (r: Self)
        ensures
            r@ == stamp_millis(reading as nat),
    {
        let top: u128 = u64::MAX as u128;
        if reading > top {
            UtcStamp { millis: u64::MAX }
        } else {
            UtcStamp { millis: reading as u64 }
        }
    }

    /// The current time.
    pub fn now() -> (r: Self)
        ensures
            r@ <= u64::MAX,
    {
        utc_now()
    }

    /// Milliseconds since the Unix epoch.
    pub fn millis(&self) -> (r: u64)
        ensures
            r == self@,
    {
        self.millis
    }

    /// Whole seconds since the Unix epoch.
    pub fn secs(&self) -> (r: u64)
        ensures
            r == self@ / 1000,
    {
        self.millis / 1000
    }

    /// Milliseconds between this stamp and a later one, zero when it is earlier.
    pub fn millis_until(&self, now: &UtcStamp) -> (r: u64)
        ensures
            r == if now@ >= self@ { now@ - self@ } else { 0 },
    {
        now.millis.saturating_sub(self.millis)
    }

    /// Milliseconds elapsed since this stamp, saturating at zero.
    pub fn elapsed_millis(&self) -> (r: u64)
        ensures
            r <= u64::MAX - self@,
    {
        self.millis_until(&utc_now())
    }

    /// Renders the stamp as `YYYY-MM-DDTHH:MM:SS.mmmZ`.
    pub fn to_rfc3339(&self) -> (r: String)
        ensures
            rfc3339(self@, r@),
    {
        format_rfc3339(self.millis)
    }

    /// The text shown for the stamp.
    pub fn to_string(&self) -> (r: String)
        ensures
            rfc3339(self@, r@),
    {
        self.to_rfc3339()
    }
}

/// The current UTC time as a [`UtcStamp`].
pub fn utc_now() -> (r: UtcStamp)
    ensures
        r@ <= u64::MAX,
{
    UtcStamp::from_clock(clock_millis())
}

/// Whether a year of the Gregorian calendar has a leap day.
pub open spec fn leap_year(year: int) -> bool {
    year % 4 == 0 && (year % 100 != 0 || year % 400 == 0)
}

/// Number of days in a month.
pub open spec fn days_in_month(year: int, month: int) -> int {
    if month == 2 {
        if leap_year(year) {
            29
        } else {
            28
        }
    } else if month == 4 || month == 6 || month == 9 || month == 11 {
        30
    } else {
        31
    }
}

/// Whether a date exists.
pub open spec fn valid_date(year: int, month: int, day: int) -> bool {
    1 <= month <= 12 && 1 <= day <= days_in_month(year, month)
}

/// Days between 0000-01-01 and the first of January of a year.
pub open spec fn days_before_year(year: int) -> int {
    365 * year + (year + 3) / 4 - (year + 99) / 100 + (year + 399) / 400
}

/// Days between the first of January and the first of a month.
pub open spec fn days_before_month(year: int, month: int) -> int {
    (if month == 1 {
        0int
    } else if month == 2 {
        31
    } else if month == 3 {
        59
    } else if month == 4 {
        90
    } else if month == 5 {
        120
    } else if month == 6 {
        151
    } else if month == 7 {
        181
    } else if month == 8 {
        212
    } else if month == 9 {
        243
    } else if month == 10 {
        273
    } else if month == 11 {
        304
    } else {
        334
    }) + if month > 2 && leap_year(year) {
        1int
    } else {
        0
    }
}

/// The number of days between a date and 1970-01-01.
pub open spec fn day_number(year: int, month: int, day: int) -> int {
    days_before_year(year) + days_before_month(year, month) + day - 1 - 719_528
}

/// The table of [`days_before_month`] adds up [`days_in_month`].
pub proof fn months_add_up(year: int, month: int)
    requires
        1 <= month <= 11,
    ensures
        days_before_month(year, month + 1) == days_before_month(year, month) + days_in_month(
            year,
            month,
        ),
        days_before_month(year, 1) == 0,
{
}

/// Consecutive years are as long as the calendar says.
pub proof fn years_add_up(year: int)
    ensures
        days_before_year(year + 1) == days_before_year(year) + days_before_month(year, 12)
            + days_in_month(year, 12),
{
}

proof fn years_are_ordered(a: int, b: int)
    requires
        a < b,
    ensures
        days_before_year(a) + days_before_month(a, 12) + 31 <= days_before_year(b),
    decreases b - a,
{
    if a + 1 < b {
        years_are_ordered(a, b - 1);
        years_add_up(b - 1);
    } else {
        years_add_up(a);
    }
}

/// No two dates have the same day number, so a day count determines its date.
pub proof fn dates_are_unique(y1: int, m1: int, d1: int, y2: int, m2: int, d2: int)
    requires
        valid_date(y1, m1, d1),
        valid_date(y2, m2, d2),
        day_number(y1, m1, d1) == day_number(y2, m2, d2),
    ensures
        y1 == y2 && m1 == m2 && d1 == d2,
{
    if y1 < y2 {
        years_are_ordered(y1, y2);
    } else if y2 < y1 {
        years_are_ordered(y2, y1);
    }
}

/// The year counted from March that a day belongs to, and the day of that year;
/// days are counted from 0000-03-01.
fn march_year(z: i64) -> (r: (i64, i64))
    requires
        z >= i64::MIN + 719_468,
    ensures
        0 <= r.1 <= 365,
        z == days_before_year(r.0 + 1) - 366 + r.1,
        r.1 == 365 ==> leap_year(r.0 + 1),
        i64::MIN < r.0 < i64::MAX,
{
    let era: i64 = if z >= 0 { z / 146_097 } else { -((-(z + 1)) / 146_097) - 1 };
    let doe: i64 = z - era * 146_097;
    assert(0 <= doe < 146_097);
    let century: i64 = if doe / 36_524 > 3 { 3 } else { doe / 36_524 };
    let doc: i64 = doe - century * 36_524;
    assert(0 <= doc <= 36_524);
    assert(doc == 36_524 ==> century == 3);
    let olympiad: i64 = doc / 1461;
    let doo: i64 = doc - olympiad * 1461;
    assert(0 <= doo < 1461);
    let annual: i64 = if doo / 365 > 3 { 3 } else { doo / 365 };
    let doy: i64 = doo - annual * 365;
    assert(0 <= doy <= 365);
    assert(0 <= olympiad <= 24);
    assert(0 <= annual <= 3);
    assert(doy == 365 ==> annual == 3);
    assert(olympiad == 24 && doy == 365 ==> century == 3);
    let y: i64 = era * 400 + century * 100 + olympiad * 4 + annual;
    proof {
        year_in_cycles(
            era as int,
            century as int,
            olympiad as int,
            annual as int,
            doy as int,
        );
    }
    (y, doy)
}

/// Position of a year in the cycles of the calendar.
proof fn year_in_cycles(e: int, c: int, o: int, a: int, doy: int)
    requires
        0 <= c <= 3,
        0 <= o <= 24,
        0 <= a <= 3,
        0 <= doy <= 365,
        doy == 365 ==> a == 3 && (o == 24 ==> c == 3),
    ensures
        ({
            let y = e * 400 + c * 100 + o * 4 + a;
            &&& days_before_year(y + 1) == 146_097 * e + 36_524 * c + 1461 * o + 365 * a + 366
            &&& doy == 365 ==> leap_year(y + 1)
        }),
{
    let y = e * 400 + c * 100 + o * 4 + a;
    assert((y + 1 + 3) / 4 == 100 * e + 25 * c + o + 1);
    assert((y + 1 + 99) / 100 == 4 * e + c + 1);
    assert((y + 1 + 399) / 400 == e + 1);
    if doy == 365 {
        assert((y + 1) % 4 == 0);
        if o == 24 {
            assert((y + 1) % 400 == 0);
        } else {
            assert((y + 1) % 100 != 0);
        }
    }
}

/// The month and the day of the month of a day of a year counted from March.
fn march_day(doy: i64) -> (r: (u32, u32))
    requires
        0 <= doy <= 365,
    ensures
        1 <= r.0 <= 12,
        r.1 >= 1,
        r.0 > 2 ==> r.1 <= days_in_month(1, r.0 as int) && days_before_month(1, r.0 as int) + r.1 - 1
            == doy + 59,
        r.0 <= 2 ==> r.1 <= 31 && days_before_month(1, r.0 as int) + r.1 - 1 == doy - 306,
        r.0 == 2 ==> r.1 <= 29 && (r.1 == 29 ==> doy == 365),
{
    let mp: i64 = (5 * doy + 2) / 153;
    assert(0 <= mp <= 11);
    let d: i64 = doy - (153 * mp + 2) / 5 + 1;
    let m: i64 = if mp < 10 { mp + 3 } else { mp - 9 };
    assert(1 <= d <= 31);
    (m as u32, d as u32)
}

/// Days since 1970-01-01 to (year, month, day) in the civil calendar.
///
/// Years are counted from March, so that a leap day is the last day of its year.
pub fn civil_from_days(days_since_epoch: i64) -> (r: (i64, u32, u32))
    requires
        days_since_epoch <= i64::MAX - 719_468,
    ensures
        valid_date(r.0 as int, r.1 as int, r.2 as int),
        day_number(r.0 as int, r.1 as int, r.2 as int) == days_since_epoch,
{
    let (y, doy) = march_year(days_since_epoch + 719_468);
    let (m, d) = march_day(doy);
    let year: i64 = if m <= 2 { y + 1 } else { y };
    proof {
        years_add_up(y as int);
        assert(days_before_month(y as int, 12) + 31 == if leap_year(y as int) { 366int } else { 365 });
    }
    (year, m, d)
}

/// Milliseconds in a day.
pub const DAY_MILLIS: u64 = 86_400_000;

/// Whether a text is the RFC 3339 UTC timestamp of a number of milliseconds since
/// the Unix epoch.
pub open spec fn rfc3339(millis: nat, text: Seq<char>) -> bool {
    let rest = (millis % 86_400_000) as nat;
    exists|year: int, month: int, day: int|
        #![trigger day_number(year, month, day)]
        valid_date(year, month, day) && year >= 0 && day_number(year, month, day) == millis
            / 86_400_000 && text == padded(year as nat, 4) + "-"@ + padded(month as nat, 2) + "-"@
            + padded(day as nat, 2) + "T"@ + padded(rest / 3_600_000, 2) + ":"@ + padded(
            (rest % 3_600_000) as nat / 60_000,
            2,
        ) + ":"@ + padded((rest % 60_000) as nat / 1000, 2) + "."@ + padded(
            (rest % 1000) as nat,
            3,
        ) + "Z"@
}

/// A number of milliseconds has exactly one timestamp.
pub proof fn timestamps_are_determined(millis: nat, a: Seq<char>, b: Seq<char>)
    requires
        rfc3339(millis, a),
        rfc3339(millis, b),
    ensures
        a == b,
{
    let (y1, m1, d1) = choose|year: int, month: int, day: int|
        #![trigger day_number(year, month, day)]
        valid_date(year, month, day) && year >= 0 && day_number(year, month, day) == millis
            / 86_400_000 && a == padded(year as nat, 4) + "-"@ + padded(month as nat, 2) + "-"@
            + padded(day as nat, 2) + "T"@ + padded((millis % 86_400_000) as nat / 3_600_000, 2)
            + ":"@ + padded(((millis % 86_400_000) as nat % 3_600_000) as nat / 60_000, 2) + ":"@
            + padded(((millis % 86_400_000) as nat % 60_000) as nat / 1000, 2) + "."@ + padded(
            ((millis % 86_400_000) as nat % 1000) as nat,
            3,
        ) + "Z"@;
    let (y2, m2, d2) = choose|year: int, month: int, day: int|
        #![trigger day_number(year, month, day)]
        valid_date(year, month, day) && year >= 0 && day_number(year, month, day) == millis
            / 86_400_000 && b == padded(year as nat, 4) + "-"@ + padded(month as nat, 2) + "-"@
            + padded(day as nat, 2) + "T"@ + padded((millis % 86_400_000) as nat / 3_600_000, 2)
            + ":"@ + padded(((millis % 86_400_000) as nat % 3_600_000) as nat / 60_000, 2) + ":"@
            + padded(((millis % 86_400_000) as nat % 60_000) as nat / 1000, 2) + "."@ + padded(
            ((millis % 86_400_000) as nat % 1000) as nat,
            3,
        ) + "Z"@;
    dates_are_unique(y1, m1, d1, y2, m2, d2);
}

/// Formats milliseconds since the epoch as an RFC 3339 UTC timestamp.
pub fn format_rfc3339(millis: u64) -> (r: String)
    ensures
        rfc3339(millis as nat, r@),
{
    let (year, month, day) = civil_from_days((millis / DAY_MILLIS) as i64);
    let rest: u64 = millis % DAY_MILLIS;
    proof {
        if year < 0 {
            years_are_ordered(year as int, 0);
        }
    }
    let mut r = to_padded(year as u64, 4);
    r.push_str("-");
    let month_text = to_padded(month as u64, 2);
    r.push_str(month_text.as_str());
    r.push_str("-");
    let day_text = to_padded(day as u64, 2);
    r.push_str(day_text.as_str());
    r.push_str("T");
    let hour_text = to_padded(rest / 3_600_000, 2);
    r.push_str(hour_text.as_str());
    r.push_str(":");
    let minute_text = to_padded((rest % 3_600_000) / 60_000, 2);
    r.push_str(minute_text.as_str());
    r.push_str(":");
    let second_text = to_padded((rest % 60_000) / 1000, 2);
    r.push_str(second_text.as_str());
    r.push_str(".");
    let milli_text = to_padded(rest % 1000, 3);
    r.push_str(milli_text.as_str());
    r.push_str("Z");
    assert(day_number(year as int, month as int, day as int) == millis as nat / 86_400_000);
    r
}

/// A duration in the form `1d 02:03:04`, without the days when there are none.
pub open spec fn uptime(seconds: nat) -> Seq<char> {
    let clock = padded((seconds % 86_400) as nat / 3600, 2) + ":"@ + padded(
        (seconds % 3600) as nat / 60,
        2,
    ) + ":"@ + padded((seconds % 60) as nat, 2);
    if seconds >= 86_400 {
        decimal(seconds / 86_400) + "d "@ + clock
    } else {
        clock
    }
}

/// Formats a number of seconds as `1d 02:03:04`.
pub fn format_uptime(total_seconds: u64) -> (r: String)
    ensures
        r@ == uptime(total_seconds as nat),
{
    let days: u64 = total_seconds / 86_400;
    let mut clock = to_padded((total_seconds % 86_400) / 3600, 2);
    clock.push_str(":");
    let minutes = to_padded((total_seconds % 3600) / 60, 2);
    clock.push_str(minutes.as_str());
    clock.push_str(":");
    let seconds = to_padded(total_seconds % 60, 2);
    clock.push_str(seconds.as_str());
    if days > 0 {
        let mut r = to_decimal(days);
        r.push_str("d ");
        r.push_str(clock.as_str());
        r
    } else {
        clock
    }
}

/// A year is a leap year every four years, except at the turn of a century that is not
/// the fourth; the months have the lengths of the Gregorian calendar.
pub proof fn calendar(year: int)
    ensures
        leap_year(year) <==> year % 400 == 0 || year % 4 == 0 && year % 100 != 0,
        days_in_month(year, 2) == if year % 400 == 0 || year % 4 == 0 && year % 100 != 0 {
            29int
        } else {
            28
        },
        days_in_month(year, 1) == 31 && days_in_month(year, 3) == 31 && days_in_month(year, 5)
            == 31 && days_in_month(year, 7) == 31 && days_in_month(year, 8) == 31 && days_in_month(
            year,
            10,
        ) == 31 && days_in_month(year, 12) == 31,
        days_in_month(year, 4) == 30 && days_in_month(year, 6) == 30 && days_in_month(year, 9) == 30
            && days_in_month(year, 11) == 30,
{
}

/// Days are counted from the first of January 1970, and each day has the number after
/// that of the day before, across the ends of months and years.
pub proof fn days_are_counted(year: int, month: int, day: int)
    requires
        valid_date(year, month, day),
    ensures
        day_number(1970, 1, 1) == 0,
        day < days_in_month(year, month) ==> day_number(year, month, day + 1) == day_number(
            year,
            month,
            day,
        ) + 1,
        day == days_in_month(year, month) && month < 12 ==> day_number(year, month + 1, 1)
            == day_number(year, month, day) + 1,
        day == days_in_month(year, month) && month == 12 ==> day_number(year + 1, 1, 1)
            == day_number(year, month, day) + 1,
{
    if month < 12 {
        months_add_up(year, month);
    }
    years_add_up(year);
}

/// A timestamp names the day and the time of day of its milliseconds: year, month and
/// day, a T, hours, minutes and seconds, a point, milliseconds and a Z.
pub proof fn timestamps_name_day_and_time(millis: nat, text: Seq<char>)
    requires
        rfc3339(millis, text),
    ensures
        exists|year: nat, month: nat, day: nat, hour: nat, minute: nat, second: nat, milli: nat|
            {
                &&& hour < 24
                &&& minute < 60
                &&& second < 60
                &&& milli < 1000
                &&& valid_date(year as int, month as int, day as int)
                &&& millis == day_number(year as int, month as int, day as int) * 86_400_000 + hour
                    * 3_600_000 + minute * 60_000 + second * 1000 + milli
                &&& text == #[trigger] stamp_text(year, month, day, hour, minute, second, milli)
            },
{
    let rest = (millis % 86_400_000) as nat;
    let (year, month, day) = choose|year: int, month: int, day: int|
        #![trigger day_number(year, month, day)]
        valid_date(year, month, day) && year >= 0 && day_number(year, month, day) == millis
            / 86_400_000 && text == padded(year as nat, 4) + "-"@ + padded(month as nat, 2) + "-"@
            + padded(day as nat, 2) + "T"@ + padded(rest / 3_600_000, 2) + ":"@ + padded(
            (rest % 3_600_000) as nat / 60_000,
            2,
        ) + ":"@ + padded((rest % 60_000) as nat / 1000, 2) + "."@ + padded(
            (rest % 1000) as nat,
            3,
        ) + "Z"@;
    reveal_strlit("-");
    reveal_strlit("T");
    reveal_strlit(":");
    reveal_strlit(".");
    reveal_strlit("Z");
    assert("-"@ =~= seq!['-']);
    assert("T"@ =~= seq!['T']);
    assert(":"@ =~= seq![':']);
    assert("."@ =~= seq!['.']);
    assert("Z"@ =~= seq!['Z']);
    let hour = rest / 3_600_000;
    let minute = (rest % 3_600_000) as nat / 60_000;
    let second = (rest % 60_000) as nat / 1000;
    let milli = (rest % 1000) as nat;
    assert(rest == hour * 3_600_000 + minute * 60_000 + second * 1000 + milli) by {
        assert((rest % 3_600_000) % 60_000 == rest % 60_000);
        assert((rest % 60_000) % 1000 == rest % 1000);
    }
    assert(text == stamp_text(year as nat, month as nat, day as nat, hour, minute, second, milli));
}

/// The text of a timestamp: its numbers with two digits, four for the year and three
/// for the milliseconds.
pub open spec fn stamp_text(
    year: nat,
    month: nat,
    day: nat,
    hour: nat,
    minute: nat,
    second: nat,
    milli: nat,
) -> Seq<char> {
    padded(year, 4) + seq!['-'] + padded(month, 2) + seq!['-'] + padded(day, 2) + seq!['T']
        + padded(hour, 2) + seq![':'] + padded(minute, 2) + seq![':'] + padded(second, 2)
        + seq!['.'] + padded(milli, 3) + seq!['Z']
}

/// An uptime is shown in days, hours, minutes and seconds; the days are left out when
/// there are none.
pub proof fn uptimes_add_up(days: nat, hours: nat, minutes: nat, seconds: nat)
    requires
        hours < 24,
        minutes < 60,
        seconds < 60,
    ensures
        ({
            let clock = padded(hours, 2) + ":"@ + padded(minutes, 2) + ":"@ + padded(seconds, 2);
            let all = days * 86_400 + hours * 3600 + minutes * 60 + seconds;
            &&& days == 0 ==> uptime(all) == clock
            &&& days > 0 ==> uptime(all) == decimal(days) + "d "@ + clock
        }),
{
    let all = days * 86_400 + hours * 3600 + minutes * 60 + seconds;
    assert(all % 86_400 == hours * 3600 + minutes * 60 + seconds);
    assert(all / 86_400 == days);
    assert((all % 86_400) / 3600 == hours);
    assert(all % 3600 == minutes * 60 + seconds) by {
        assert(all == (days * 24 + hours) * 3600 + (minutes * 60 + seconds));
    }
    assert(all % 60 == seconds) by {
        assert(all == (days * 1440 + hours * 60 + minutes) * 60 + seconds);
    }
}

/// A clock reading is its own stamp, up to the largest that fits.
pub proof fn readings_are_stamps(reading: nat)
    ensures
        reading <= u64::MAX ==> stamp_millis(reading) == reading,
        reading > u64::MAX ==> stamp_millis(reading) == u64::MAX,
{
}

} // verus!
