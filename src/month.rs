use std::fmt::Write;
use vstd::prelude::*;

verus! {

/// The position of a calendar month on a single line of months:
/// January of year 0 is month 0, December of year -1 is month -1.
pub open spec fn month_index(year: int, month: int) -> int {
    year * 12 + month - 1
}

/// A point in time in UTC, broken down as the service reports it.
#[derive(Clone, Copy, Debug, PartialEq, Eq, Structural)]
pub struct Timestamp {
    pub year: i32,
    /// 1 for January up to 12 for December.
    pub month: u32,
    /// Day of the month, from 1.
    pub day: u32,
    /// Seconds since midnight.
    pub second: u32,
    pub nanosecond: u32,
}

/// Strict chronological order of two timestamps.
pub open spec fn precedes(a: Timestamp, b: Timestamp) -> bool {
    a.year < b.year || (a.year == b.year && (a.month < b.month || (a.month == b.month && (a.day
        < b.day || (a.day == b.day && (a.second < b.second || (a.second == b.second
        && a.nanosecond < b.nanosecond)))))))
}

impl Timestamp {
    /// A well-formed timestamp names a real month.
    pub open spec fn wf(self) -> bool {
        1 <= self.month <= 12
    }

    pub open spec fn month_index(self) -> int {
        month_index(self.year as int, self.month as int)
    }

    /// The first instant of a month.
    pub open spec fn is_month_start(self) -> bool {
        self.day == 1 && self.second == 0 && self.nanosecond == 0
    }

    /// Whether `self` lies strictly before `other`.
    pub fn is_before(&self, other: &Timestamp) -> (r: bool)
        ensures
            r == precedes(*self, *other),
    {
        if self.year != other.year {
            self.year < other.year
        } else if self.month != other.month {
            self.month < other.month
        } else if self.day != other.day {
            self.day < other.day
        } else if self.second != other.second {
            self.second < other.second
        } else {
            self.nanosecond < other.nanosecond
        }
    }
}

/// Which month an archive playlist collects: a year and a month of it.
#[derive(Clone, Copy, Debug, PartialEq, Eq, Hash, Structural)]
pub struct MonthlyPlaylist {
    pub year: i32,
    /// 1 for January up to 12 for December.
    pub month: u32,
}

/// The month in which a timestamp falls.
pub open spec fn month_of(t: Timestamp) -> MonthlyPlaylist {
    MonthlyPlaylist { year: t.year, month: t.month }
}

impl MonthlyPlaylist {
    pub open spec fn wf(self) -> bool {
        1 <= self.month <= 12
    }

    pub fn new(year: i32, month: u32) -> (r: MonthlyPlaylist)
        requires
            1 <= month <= 12,
        ensures
            r.year == year,
            r.month == month,
            r.wf(),
    {
        MonthlyPlaylist { year, month }
    }

    /// The month in which `t` falls.
    pub fn of(t: &Timestamp) -> (r: MonthlyPlaylist)
        ensures
            r == month_of(*t),
    {
        MonthlyPlaylist { year: t.year, month: t.month }
    }

    /// The title of this month's playlist: `pattern` is a strftime pattern
    /// applied to the first day of the month, spelled in `locale` (such as
    /// "es_CR"). `None` where the locale is unknown, the pattern cannot be
    /// rendered, or the date lies outside the calendar's range.
    pub fn name(&self, pattern: &str, locale: &str) -> (r: Option<String>)
        ensures
            r is Some == month_label(self.year as int, self.month as int, pattern@, locale@) is Some,
            r is Some ==> r->0@ == month_label(
                self.year as int,
                self.month as int,
                pattern@,
                locale@,
            )->0,
    {
        format_month(self.year, self.month, pattern, locale)
    }
}

/// What chrono renders for the first day of a month under a pattern and a
/// locale; `None` where it renders nothing.
pub uninterp spec fn month_label(year: int, month: int, pattern: Seq<char>, locale: Seq<char>) -> Option<Seq<char>>;

/// Relies on chrono's `NaiveDate::format_localized` (feature
/// "unstable-locales"): the text depends on the date, the pattern and the
/// locale alone. `Locale::try_from` reads the locale's name and
/// `NaiveDate::from_ymd_opt` builds the date; a failure of either, or of the
/// rendering, gives `None`.
#[verifier::external_body]
fn format_month(year: i32, month: u32, pattern: &str, locale: &str) -> (r: Option<String>)
    ensures
        r is Some == month_label(year as int, month as int, pattern@, locale@) is Some,
        r is Some ==> r->0@ == month_label(year as int, month as int, pattern@, locale@)->0,
{
    let locale = chrono::Locale::try_from(locale).ok()?;
    let date = chrono::NaiveDate::from_ymd_opt(year, month, 1)?;
    let mut text = String::new();
    write!(text, "{}", date.format_localized(pattern, locale)).ok()?;
    Some(text)
}

/// The month that lies `sub` months before `month` of `year`.
pub fn sub_months(year: i32, month: u32, sub: u32) -> (r: (i32, u32))
    requires
        1 <= month <= 12,
        month_index(year as int, month as int) - sub >= month_index(i32::MIN as int, 1),
    ensures
        1 <= r.1 <= 12,
        month_index(r.0 as int, r.1 as int) == month_index(year as int, month as int) - sub,
{
    let rem: u32 = sub % 12;
    let years: u32 = sub / 12;
    assert(sub == years * 12 + rem);
    if rem < month {
        (year - years as i32, month - rem)
    } else {
        (year - years as i32 - 1, month + (12 - rem))
    }
}

/// The cutoff of a run: the first instant of the month `months_buffer`
/// months before the month of `now`. Entries added at or after it stay in
/// the source playlist.
pub fn cutoff(now: &Timestamp, months_buffer: u32) -> (r: Timestamp)
    requires
        now.wf(),
        now.month_index() - months_buffer >= month_index(i32::MIN as int, 1),
    ensures
        r.wf(),
        r.is_month_start(),
        r.month_index() == now.month_index() - months_buffer,
{
    let (year, month) = sub_months(now.year, now.month, months_buffer);
    Timestamp { year, month, day: 1, second: 0, nanosecond: 0 }
}

} // verus!
