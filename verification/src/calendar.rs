//! Calendar values: days, times of day, moments and weekdays.
//!
//! A day is counted as in the proleptic Gregorian calendar, where
//! 0001-01-01 is day 1 (a Monday). A time of day is a number of seconds
//! since midnight.
use vstd::prelude::*;

verus! {

/// Seconds in one day.
pub const SECONDS_PER_DAY: u32 = 86400;

/// The latest day to which a duration that fits in a `u32` of seconds can
/// still be added, from any time of day, without leaving the range of an
/// `i32` day count.
pub const LAST_EXTENSIBLE_DAY: i32 = 2147384227;

/// A day, as its number counted from 0001-01-01 (day 1).
#[derive(Clone, Copy, Debug, PartialEq, Eq, Structural, Hash)]
pub struct Date {
    pub days_from_ce: i32,
}

/// A time of day, as seconds since midnight (below `SECONDS_PER_DAY`).
#[derive(Clone, Copy, Debug, PartialEq, Eq, Structural, Hash)]
pub struct Time {
    pub secs: u32,
}

/// A moment: a day and a time of that day.
#[derive(Clone, Copy, Debug, PartialEq, Eq, Structural, Hash)]
pub struct DateTime {
    pub date: Date,
    pub time: Time,
}

/// A day of the week.
#[derive(Clone, Copy, Debug, PartialEq, Eq, Structural, Hash)]
pub enum Weekday {
    Mon,
    Tue,
    Wed,
    Thu,
    Fri,
    Sat,
    Sun,
}

/// The weekday whose number, counted from Monday as 0, is `n` (taken modulo 7).
pub open spec fn weekday_from_monday(n: int) -> Weekday {
    let r = n % 7;
    if r == 0 {
        Weekday::Mon
    } else if r == 1 {
        Weekday::Tue
    } else if r == 2 {
        Weekday::Wed
    } else if r == 3 {
        Weekday::Thu
    } else if r == 4 {
        Weekday::Fri
    } else if r == 5 {
        Weekday::Sat
    } else {
        Weekday::Sun
    }
}

impl Weekday {
    /// The number of this weekday counted from Monday as 0.
    pub open spec fn spec_number_from_monday(self) -> int {
        match self {
            Weekday::Mon => 0,
            Weekday::Tue => 1,
            Weekday::Wed => 2,
            Weekday::Thu => 3,
            Weekday::Fri => 4,
            Weekday::Sat => 5,
            Weekday::Sun => 6,
        }
    }

    /// Whether two weekdays are the same day.
    pub fn same_day(&self, other: &Weekday) -> (r: bool)
        ensures
            r == (*self == *other),
    {
        self.number_from_monday() == other.number_from_monday()
    }

    /// The number of this weekday counted from Monday as 0.
    pub fn number_from_monday(&self) -> (n: u8)
        ensures
            n == self.spec_number_from_monday(),
    {
        match self {
            Weekday::Mon => 0,
            Weekday::Tue => 1,
            Weekday::Wed => 2,
            Weekday::Thu => 3,
            Weekday::Fri => 4,
            Weekday::Sat => 5,
            Weekday::Sun => 6,
        }
    }
}

impl Date {
    /// The weekday of this day: day 1 is a Monday, and weekdays repeat every 7 days.
    pub open spec fn spec_weekday(self) -> Weekday {
        weekday_from_monday(self.days_from_ce - 1)
    }

    /// The weekday of this day.
    pub fn weekday(&self) -> (w: Weekday)
        ensures
            w == self.spec_weekday(),
    {
        // Shift by a multiple of 7 that makes the count non-negative.
        let shifted: i64 = self.days_from_ce as i64 - 1 + 2147483653;
        let r: i64 = shifted % 7;
        assert(r == (self.days_from_ce - 1) % 7) by (nonlinear_arith)
            requires
                shifted == self.days_from_ce - 1 + 7 * 306783379,
                shifted >= 0,
                r == shifted % 7,
        {
        }
        if r == 0 {
            Weekday::Mon
        } else if r == 1 {
            Weekday::Tue
        } else if r == 2 {
            Weekday::Wed
        } else if r == 3 {
            Weekday::Thu
        } else if r == 4 {
            Weekday::Fri
        } else if r == 5 {
            Weekday::Sat
        } else {
            Weekday::Sun
        }
    }

    /// Whether two days are the same day.
    pub fn same_day(&self, other: &Date) -> (r: bool)
        ensures
            r == (*self == *other),
    {
        self.days_from_ce == other.days_from_ce
    }
}

impl Time {
    /// A time of day is well formed when it lies within one day.
    pub open spec fn wf(self) -> bool {
        self.secs < SECONDS_PER_DAY
    }
}

/// The key by which moments are ordered: first the day, then the time of day.
pub open spec fn moment_key(m: DateTime) -> (int, int) {
    (m.date.days_from_ce as int, m.time.secs as int)
}

/// Whether moment `a` comes no later than moment `b`.
pub open spec fn moment_le(a: DateTime, b: DateTime) -> bool {
    a.date.days_from_ce < b.date.days_from_ce || (a.date.days_from_ce == b.date.days_from_ce
        && a.time.secs <= b.time.secs)
}

/// The moment `secs` seconds after `m`, carrying whole days into the day count.
pub open spec fn spec_add_seconds(m: DateTime, secs: u32) -> DateTime {
    let total = m.time.secs + secs;
    DateTime {
        date: Date { days_from_ce: (m.date.days_from_ce + total / (SECONDS_PER_DAY as int)) as i32 },
        time: Time { secs: (total % (SECONDS_PER_DAY as int)) as u32 },
    }
}

impl DateTime {
    /// The moment at time `time` of day `date`.
    pub fn new(date: Date, time: Time) -> (m: DateTime)
        ensures
            m.date == date,
            m.time == time,
    {
        DateTime { date, time }
    }

    /// The key by which moments are ordered: the day, then the time of day.
    pub fn key(&self) -> (k: (i32, u32))
        ensures
            k.0 == self.date.days_from_ce,
            k.1 == self.time.secs,
    {
        (self.date.days_from_ce, self.time.secs)
    }

    /// The moment `secs` seconds after this one.
    pub fn add_seconds(&self, secs: u32) -> (r: DateTime)
        requires
            self.date.days_from_ce <= LAST_EXTENSIBLE_DAY,
        ensures
            r == spec_add_seconds(*self, secs),
            r.time.wf(),
    {
        let total: u64 = self.time.secs as u64 + secs as u64;
        let days: u64 = total / (SECONDS_PER_DAY as u64);
        let rest: u64 = total % (SECONDS_PER_DAY as u64);
        assert(days <= 99420) by (nonlinear_arith)
            requires
                total <= 4294967295 + 4294967295,
                days == total / 86400,
        {
        }
        DateTime {
            date: Date { days_from_ce: self.date.days_from_ce + days as i32 },
            time: Time { secs: rest as u32 },
        }
    }
}

/// Weekdays repeat every seven days.
pub proof fn law_weekday_repeats_weekly(d: Date, e: Date)
    requires
        e.days_from_ce == d.days_from_ce + 7,
    ensures
        e.spec_weekday() == d.spec_weekday(),
{
    assert((e.days_from_ce - 1) % 7 == (d.days_from_ce - 1) % 7) by (nonlinear_arith)
        requires
            e.days_from_ce - 1 == (d.days_from_ce - 1) + 7,
    {
    }
}

/// Adding a duration to a moment never gives an earlier moment, and the time
/// of day of the result lies within a day.
pub proof fn law_add_seconds_not_earlier(m: DateTime, secs: u32)
    requires
        m.time.wf(),
        m.date.days_from_ce <= LAST_EXTENSIBLE_DAY,
    ensures
        moment_le(m, spec_add_seconds(m, secs)),
        spec_add_seconds(m, secs).time.wf(),
{
    let total = m.time.secs + secs;
    assert(total / 86400 <= 99420) by (nonlinear_arith)
        requires
            0 <= total <= 4294967295 + 4294967295,
    {
    }
    assert(total / 86400 >= 0 && 0 <= total % 86400 < 86400) by (nonlinear_arith)
        requires
            0 <= total,
    {
    }
    if total / 86400 == 0 {
        assert(total % 86400 == total) by (nonlinear_arith)
            requires
                0 <= total,
                total / 86400 == 0,
        {
        }
    }
}

/// Adding no time to a moment within a day gives the same moment.
pub proof fn law_add_zero_seconds(m: DateTime)
    requires
        m.time.wf(),
    ensures
        spec_add_seconds(m, 0) == m,
{
    let t = m.time.secs as int;
    assert(t / 86400 == 0 && t % 86400 == t) by (nonlinear_arith)
        requires
            0 <= t < 86400,
    {
    }
}

/// Adding a whole day keeps the time of day and moves to the next day.
pub proof fn law_add_one_day(m: DateTime)
    requires
        m.time.wf(),
    ensures
        spec_add_seconds(m, SECONDS_PER_DAY) == (DateTime {
            date: Date { days_from_ce: (m.date.days_from_ce + 1) as i32 },
            time: m.time,
        }),
{
    let t = m.time.secs as int;
    assert((t + 86400) / 86400 == 1 && (t + 86400) % 86400 == t) by (nonlinear_arith)
        requires
            0 <= t < 86400,
    {
    }
}

/// The weekday counted from `n` days after a Monday has number `n` modulo 7.
proof fn lemma_weekday_number(n: int)
    ensures
        weekday_from_monday(n).spec_number_from_monday() == n % 7,
{
    assert(0 <= n % 7 < 7) by (nonlinear_arith);
}

/// Day 1 (0001-01-01) is a Monday, and each day's weekday is the one after
/// the weekday of the day before (Sunday is followed by Monday).
pub proof fn law_next_day_next_weekday(d: Date, e: Date)
    requires
        e.days_from_ce == d.days_from_ce + 1,
    ensures
        (Date { days_from_ce: 1 }).spec_weekday() == Weekday::Mon,
        e.spec_weekday().spec_number_from_monday() == (d.spec_weekday().spec_number_from_monday()
            + 1) % 7,
        e.spec_weekday() == match d.spec_weekday() {
            Weekday::Mon => Weekday::Tue,
            Weekday::Tue => Weekday::Wed,
            Weekday::Wed => Weekday::Thu,
            Weekday::Thu => Weekday::Fri,
            Weekday::Fri => Weekday::Sat,
            Weekday::Sat => Weekday::Sun,
            Weekday::Sun => Weekday::Mon,
        },
{
    lemma_weekday_number(d.days_from_ce - 1);
    lemma_weekday_number(e.days_from_ce - 1);
    let a = d.days_from_ce - 1;
    assert((a + 1) % 7 == (a % 7 + 1) % 7) by (nonlinear_arith);
    assert((Date { days_from_ce: 1 }).spec_weekday() == weekday_from_monday(0));
}

} // verus!
