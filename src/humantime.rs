//! Durations in words: "an hour ago", "in 2 days", or precisely "1 hour,
//! 2 minutes and 3 seconds".

use vstd::prelude::*;

use crate::utils::{decimal, push_decimal, NANOS_PER_SEC};

verus! {

/// Present the object in human friendly text form.
pub trait Humanize {
    /// Emits a `String` that represents the object in human friendly form.
    fn humanize(&self) -> String;
}

/// Indicates the time of the period in relation to the time of the utterance.
#[derive(Clone, Copy, Debug, Hash, PartialEq, Eq, Structural)]
pub enum Tense {
    Past,
    Present,
    Future,
}

/// The accuracy of the representation.
#[derive(Clone, Copy, Debug, Hash, PartialEq, Eq, Structural)]
pub enum Accuracy {
    /// Rough approximation, easy to grasp, but not necessarily accurate.
    Rough,
    /// Concise expression, accurate, but not necessarily easy to grasp.
    Precise,
}

impl Accuracy {
    /// Returns whether this accuracy is precise.
    pub fn is_precise(self) -> (r: bool)
        ensures
            r == (self == Accuracy::Precise),
    {
        self == Accuracy::Precise
    }

    /// Returns whether this accuracy is rough.
    pub fn is_rough(self) -> (r: bool)
        ensures
            r == (self == Accuracy::Rough),
    {
        self == Accuracy::Rough
    }
}

// Number of seconds in various time periods.
pub const S_MINUTE: u64 = 60;
pub const S_HOUR: u64 = 3600;
pub const S_DAY: u64 = 86400;
pub const S_WEEK: u64 = 604800;
pub const S_MONTH: u64 = 2592000;
pub const S_YEAR: u64 = 31536000;

/// One term of a duration in words.
#[derive(Clone, Copy, Debug, PartialEq, Eq, Structural)]
pub enum TimePeriod {
    Now,
    Nanos(u64),
    Micros(u64),
    Millis(u64),
    Seconds(u64),
    Minutes(u64),
    Hours(u64),
    Days(u64),
    Weeks(u64),
    Months(u64),
    Years(u64),
    Eternity,
}

/// `n` followed by a unit name.
pub open spec fn count_text(n: u64, unit: Seq<char>) -> Seq<char> {
    decimal(n as nat) + unit
}

/// The words for one term, precisely.
pub open spec fn precise_text(p: TimePeriod) -> Seq<char> {
    match p {
        TimePeriod::Now => "now"@,
        TimePeriod::Nanos(n) => count_text(n, " ns"@),
        TimePeriod::Micros(n) => count_text(n, " µs"@),
        TimePeriod::Millis(n) => count_text(n, " ms"@),
        TimePeriod::Seconds(n) => if n == 1 { "1 second"@ } else { count_text(n, " seconds"@) },
        TimePeriod::Minutes(n) => if n == 1 { "1 minute"@ } else { count_text(n, " minutes"@) },
        TimePeriod::Hours(n) => if n == 1 { "1 hour"@ } else { count_text(n, " hours"@) },
        TimePeriod::Days(n) => if n == 1 { "1 day"@ } else { count_text(n, " days"@) },
        TimePeriod::Weeks(n) => if n == 1 { "1 week"@ } else { count_text(n, " weeks"@) },
        TimePeriod::Months(n) => if n == 1 { "1 month"@ } else { count_text(n, " months"@) },
        TimePeriod::Years(n) => if n == 1 { "1 year"@ } else { count_text(n, " years"@) },
        TimePeriod::Eternity => "eternity"@,
    }
}

/// The words for one term, roughly.
pub open spec fn rough_text(p: TimePeriod) -> Seq<char> {
    match p {
        TimePeriod::Now => "now"@,
        TimePeriod::Nanos(n) => count_text(n, " ns"@),
        TimePeriod::Micros(n) => count_text(n, " µs"@),
        TimePeriod::Millis(n) => count_text(n, " ms"@),
        TimePeriod::Seconds(n) => count_text(n, " seconds"@),
        TimePeriod::Minutes(n) => if n == 1 { "a minute"@ } else { count_text(n, " minutes"@) },
        TimePeriod::Hours(n) => if n == 1 { "an hour"@ } else { count_text(n, " hours"@) },
        TimePeriod::Days(n) => if n == 1 { "a day"@ } else { count_text(n, " days"@) },
        TimePeriod::Weeks(n) => if n == 1 { "a week"@ } else { count_text(n, " weeks"@) },
        TimePeriod::Months(n) => if n == 1 { "a month"@ } else { count_text(n, " months"@) },
        TimePeriod::Years(n) => if n == 1 { "a year"@ } else { count_text(n, " years"@) },
        TimePeriod::Eternity => "eternity"@,
    }
}

pub open spec fn period_text(p: TimePeriod, accuracy: Accuracy) -> Seq<char> {
    match accuracy {
        Accuracy::Rough => rough_text(p),
        Accuracy::Precise => precise_text(p),
    }
}

fn append_count(out: &mut String, n: u64, unit: &str)
    ensures
        final(out)@ == old(out)@ + count_text(n, unit@),
{
    push_decimal(out, n);
    out.append(unit);
    proof {
        assert(old(out)@ + decimal(n as nat) + unit@ =~= old(out)@ + (decimal(n as nat) + unit@));
    }
}

impl TimePeriod {
    /// Appends the words for this term, precisely.
    fn append_text_precise(self, out: &mut String)
        ensures
            final(out)@ == old(out)@ + precise_text(self),
    {
        match self {
            TimePeriod::Now => out.append("now"),
            TimePeriod::Nanos(n) => append_count(out, n, " ns"),
            TimePeriod::Micros(n) => append_count(out, n, " µs"),
            TimePeriod::Millis(n) => append_count(out, n, " ms"),
            TimePeriod::Seconds(n) => if n == 1 { out.append("1 second") } else { append_count(out, n, " seconds") },
            TimePeriod::Minutes(n) => if n == 1 { out.append("1 minute") } else { append_count(out, n, " minutes") },
            TimePeriod::Hours(n) => if n == 1 { out.append("1 hour") } else { append_count(out, n, " hours") },
            TimePeriod::Days(n) => if n == 1 { out.append("1 day") } else { append_count(out, n, " days") },
            TimePeriod::Weeks(n) => if n == 1 { out.append("1 week") } else { append_count(out, n, " weeks") },
            TimePeriod::Months(n) => if n == 1 { out.append("1 month") } else { append_count(out, n, " months") },
            TimePeriod::Years(n) => if n == 1 { out.append("1 year") } else { append_count(out, n, " years") },
            TimePeriod::Eternity => out.append("eternity"),
        }
    }

    /// Appends the words for this term, roughly.
    fn append_text_rough(self, out: &mut String)
        ensures
            final(out)@ == old(out)@ + rough_text(self),
    {
        match self {
            TimePeriod::Now => out.append("now"),
            TimePeriod::Nanos(n) => append_count(out, n, " ns"),
            TimePeriod::Micros(n) => append_count(out, n, " µs"),
            TimePeriod::Millis(n) => append_count(out, n, " ms"),
            TimePeriod::Seconds(n) => append_count(out, n, " seconds"),
            TimePeriod::Minutes(n) => if n == 1 { out.append("a minute") } else { append_count(out, n, " minutes") },
            TimePeriod::Hours(n) => if n == 1 { out.append("an hour") } else { append_count(out, n, " hours") },
            TimePeriod::Days(n) => if n == 1 { out.append("a day") } else { append_count(out, n, " days") },
            TimePeriod::Weeks(n) => if n == 1 { out.append("a week") } else { append_count(out, n, " weeks") },
            TimePeriod::Months(n) => if n == 1 { out.append("a month") } else { append_count(out, n, " months") },
            TimePeriod::Years(n) => if n == 1 { out.append("a year") } else { append_count(out, n, " years") },
            TimePeriod::Eternity => out.append("eternity"),
        }
    }

    /// The words for this term, precisely.
    pub fn to_text_precise(self) -> (r: String)
        ensures
            r@ == precise_text(self),
    {
        let mut out = String::new();
        self.append_text_precise(&mut out);
        assert(out@ =~= precise_text(self));
        out
    }

    /// The words for this term, roughly.
    pub fn to_text_rough(self) -> (r: String)
        ensures
            r@ == rough_text(self),
    {
        let mut out = String::new();
        self.append_text_rough(&mut out);
        assert(out@ =~= rough_text(self));
        out
    }

    /// The words for this term at the given accuracy.
    pub fn to_text(self, accuracy: Accuracy) -> (r: String)
        ensures
            r@ == period_text(self, accuracy),
    {
        match accuracy {
            Accuracy::Rough => self.to_text_rough(),
            Accuracy::Precise => self.to_text_precise(),
        }
    }
}

} // verus!

verus! {

/// A duration, as whole seconds and a sub-second part in nanoseconds, that
/// can be put in words.
#[derive(Clone, Copy, Debug, PartialEq, Eq)]
pub struct HumanTime {
    secs: u64,
    nanos: u32,
}

/// The term for a number of whole units, when there is at least one.
pub open spec fn term(n: int, p: TimePeriod) -> Seq<TimePeriod> {
    if n > 0 { seq![p] } else { Seq::empty() }
}

/// The terms for whole years, months, weeks and days, leaving out units
/// with a count of zero. Years have 365 days, months 30.
pub open spec fn calendar_terms(secs: u64) -> Seq<TimePeriod> {
    let years = secs / S_YEAR;
    let r1 = secs % S_YEAR;
    let months = r1 / S_MONTH;
    let r2 = r1 % S_MONTH;
    let weeks = r2 / S_WEEK;
    let r3 = r2 % S_WEEK;
    let days = r3 / S_DAY;
    term(years as int, TimePeriod::Years(years as u64)) + term(months as int, TimePeriod::Months(months as u64))
        + term(weeks as int, TimePeriod::Weeks(weeks as u64)) + term(days as int, TimePeriod::Days(days as u64))
}

/// What is left of `secs` below one day once whole years, months, weeks and
/// days are taken out.
pub open spec fn below_day(secs: u64) -> u64 {
    (((secs % S_YEAR) % S_MONTH) % S_WEEK) % S_DAY
}

/// The terms for whole hours, minutes and seconds of a part of a day.
pub open spec fn clock_terms(secs: u64) -> Seq<TimePeriod> {
    let hours = secs / S_HOUR;
    let r = secs % S_HOUR;
    let minutes = r / S_MINUTE;
    let seconds = r % S_MINUTE;
    term(hours as int, TimePeriod::Hours(hours as u64)) + term(minutes as int, TimePeriod::Minutes(minutes as u64))
        + term(seconds as int, TimePeriod::Seconds(seconds as u64))
}

/// The terms for whole seconds, largest unit first.
pub open spec fn whole_terms(secs: u64) -> Seq<TimePeriod> {
    calendar_terms(secs) + clock_terms(below_day(secs))
}

/// The terms for a part of a second, leaving out units with a count of zero.
pub open spec fn fraction_terms(nanos: u32) -> Seq<TimePeriod> {
    let millis = nanos / 1_000_000;
    let micros = (nanos % 1_000_000) / 1000;
    let ns = nanos % 1000;
    term(millis as int, TimePeriod::Millis(millis as u64)) + term(micros as int, TimePeriod::Micros(micros as u64))
        + term(ns as int, TimePeriod::Nanos(ns as u64))
}

/// The terms of a duration, largest unit first, leaving out units with a
/// count of zero.
pub open spec fn precise_terms(secs: u64, nanos: u32) -> Seq<TimePeriod> {
    whole_terms(secs) + fraction_terms(nanos)
}

/// The single term that roughly describes a duration of `n` whole seconds.
pub open spec fn rough_term(n: u64) -> TimePeriod {
    if n > 547 * S_DAY {
        TimePeriod::Years(if n / S_YEAR > 2 { (n / S_YEAR) as u64 } else { 2 })
    } else if n > 345 * S_DAY {
        TimePeriod::Years(1)
    } else if n > 45 * S_DAY {
        TimePeriod::Months(if n / S_MONTH > 2 { (n / S_MONTH) as u64 } else { 2 })
    } else if n > 29 * S_DAY {
        TimePeriod::Months(1)
    } else if n > 10 * S_DAY + 12 * S_HOUR {
        TimePeriod::Weeks(if n / S_WEEK > 2 { (n / S_WEEK) as u64 } else { 2 })
    } else if n > 6 * S_DAY + 12 * S_HOUR {
        TimePeriod::Weeks(1)
    } else if n > 36 * S_HOUR {
        TimePeriod::Days(if n / S_DAY > 2 { (n / S_DAY) as u64 } else { 2 })
    } else if n > 22 * S_HOUR {
        TimePeriod::Days(1)
    } else if n > 90 * S_MINUTE {
        TimePeriod::Hours(if n / S_HOUR > 2 { (n / S_HOUR) as u64 } else { 2 })
    } else if n > 45 * S_MINUTE {
        TimePeriod::Hours(1)
    } else if n > 90 {
        TimePeriod::Minutes(if n / S_MINUTE > 2 { (n / S_MINUTE) as u64 } else { 2 })
    } else if n > 45 {
        TimePeriod::Minutes(1)
    } else if n > 10 {
        TimePeriod::Seconds(n)
    } else {
        TimePeriod::Now
    }
}

/// Terms joined as in English: "a, b and c".
pub open spec fn join_terms(ts: Seq<Seq<char>>) -> Seq<char> {
    if ts.len() <= 1 {
        comma_join(ts)
    } else {
        comma_join(ts.drop_last()) + " and "@ + ts.last()
    }
}

/// Terms separated by ", ".
pub open spec fn comma_join(ts: Seq<Seq<char>>) -> Seq<char>
    decreases ts.len(),
{
    if ts.len() == 0 {
        Seq::empty()
    } else if ts.len() == 1 {
        ts[0]
    } else {
        comma_join(ts.drop_last()) + ", "@ + ts.last()
    }
}

pub open spec fn tense_text(text: Seq<char>, tense: Tense) -> Seq<char> {
    match tense {
        Tense::Past => text + " ago"@,
        Tense::Future => "in "@ + text,
        Tense::Present => text,
    }
}

pub open spec fn terms_text(ps: Seq<TimePeriod>, accuracy: Accuracy) -> Seq<Seq<char>> {
    ps.map_values(|p: TimePeriod| period_text(p, accuracy))
}

impl HumanTime {
    #[verifier::type_invariant]
    spec fn inv(&self) -> bool {
        self.nanos < NANOS_PER_SEC
    }

    pub closed spec fn secs_spec(&self) -> u64 {
        self.secs
    }

    pub closed spec fn nanos_spec(&self) -> u32 {
        self.nanos
    }

    /// The duration of `secs` seconds and `subsec_nanos` nanoseconds.
    pub fn new(secs: u64, subsec_nanos: u32) -> (r: HumanTime)
        requires
            subsec_nanos < NANOS_PER_SEC,
        ensures
            r.secs_spec() == secs,
            r.nanos_spec() == subsec_nanos,
    {
        HumanTime { secs, nanos: subsec_nanos }
    }

    /// The empty duration: the present moment.
    pub fn now() -> (r: HumanTime)
        ensures
            r.secs_spec() == 0,
            r.nanos_spec() == 0,
    {
        HumanTime { secs: 0, nanos: 0 }
    }

    /// The terms of the duration, precisely; "0 seconds" when it is empty.
    pub open spec fn precise_period_spec(&self) -> Seq<TimePeriod> {
        let ts = precise_terms(self.secs_spec(), self.nanos_spec());
        if ts.len() == 0 { seq![TimePeriod::Seconds(0)] } else { ts }
    }

    pub open spec fn period_spec(&self, accuracy: Accuracy) -> Seq<TimePeriod> {
        match accuracy {
            Accuracy::Rough => seq![rough_term(self.secs_spec())],
            Accuracy::Precise => self.precise_period_spec(),
        }
    }

    pub open spec fn tense_spec(&self, accuracy: Accuracy) -> Tense {
        if accuracy == Accuracy::Rough && self.secs_spec() < 11 {
            Tense::Present
        } else if self.secs_spec() > 0 || self.nanos_spec() > 0 {
            Tense::Future
        } else {
            Tense::Present
        }
    }

    /// The whole duration is zero.
    pub fn is_zero(self) -> (r: bool)
        ensures
            r == (self.secs_spec() == 0 && self.nanos_spec() == 0),
    {
        self.secs == 0 && self.nanos == 0
    }

    /// The tense the duration is spoken in: a duration is always ahead, so
    /// the future, or the present for an empty one or, roughly, for one of
    /// ten seconds or less.
    pub fn tense(self, accuracy: Accuracy) -> (r: Tense)
        ensures
            r == self.tense_spec(accuracy),
    {
        if accuracy.is_rough() && self.secs < 11 {
            Tense::Present
        } else if self.secs > 0 || self.nanos > 0 {
            Tense::Future
        } else {
            Tense::Present
        }
    }

    /// The one term that roughly describes the duration.
    pub fn rough_period(self) -> (r: Vec<TimePeriod>)
        ensures
            r@ == seq![rough_term(self.secs_spec())],
    {
        let n = self.secs;
        let period = if n > 547 * S_DAY {
            TimePeriod::Years(if n / S_YEAR > 2 { n / S_YEAR } else { 2 })
        } else if n > 345 * S_DAY {
            TimePeriod::Years(1)
        } else if n > 45 * S_DAY {
            TimePeriod::Months(if n / S_MONTH > 2 { n / S_MONTH } else { 2 })
        } else if n > 29 * S_DAY {
            TimePeriod::Months(1)
        } else if n > 10 * S_DAY + 12 * S_HOUR {
            TimePeriod::Weeks(if n / S_WEEK > 2 { n / S_WEEK } else { 2 })
        } else if n > 6 * S_DAY + 12 * S_HOUR {
            TimePeriod::Weeks(1)
        } else if n > 36 * S_HOUR {
            TimePeriod::Days(if n / S_DAY > 2 { n / S_DAY } else { 2 })
        } else if n > 22 * S_HOUR {
            TimePeriod::Days(1)
        } else if n > 90 * S_MINUTE {
            TimePeriod::Hours(if n / S_HOUR > 2 { n / S_HOUR } else { 2 })
        } else if n > 45 * S_MINUTE {
            TimePeriod::Hours(1)
        } else if n > 90 {
            TimePeriod::Minutes(if n / S_MINUTE > 2 { n / S_MINUTE } else { 2 })
        } else if n > 45 {
            TimePeriod::Minutes(1)
        } else if n > 10 {
            TimePeriod::Seconds(n)
        } else {
            TimePeriod::Now
        };
        let r = vec![period];
        assert(r@ =~= seq![rough_term(self.secs_spec())]);
        r
    }

    /// Keeps a count of whole units only when it is not zero.
    fn normalize_split(wholes: u64, reminder: HumanTime) -> (r: (Option<u64>, HumanTime))
        ensures
            r.0 == (if wholes > 0 { Some(wholes) } else { None::<u64> }),
            r.1 == reminder,
    {
        let wholes = if wholes > 0 { Some(wholes) } else { None };
        (wholes, reminder)
    }

    /// Splits off whole units of `unit` seconds: their count (when not
    /// zero) and what is left.
    fn split_secs(self, unit: u64) -> (r: (Option<u64>, HumanTime))
        requires
            unit > 0,
        ensures
            r.0 == (if self.secs_spec() / unit > 0 { Some(self.secs_spec() / unit) } else { None::<u64> }),
            r.1.secs_spec() == self.secs_spec() % unit,
            r.1.nanos_spec() == self.nanos_spec(),
    {
        proof { use_type_invariant(self); }
        let wholes = self.secs / unit;
        Self::normalize_split(wholes, HumanTime { secs: self.secs % unit, nanos: self.nanos })
    }

    /// Splits off whole units of `unit` nanoseconds from a sub-second
    /// duration.
    fn split_nanos(self, unit: u32) -> (r: (Option<u64>, HumanTime))
        requires
            0 < unit <= NANOS_PER_SEC,
            self.secs_spec() == 0,
        ensures
            r.0 == (if self.nanos_spec() / unit > 0 { Some((self.nanos_spec() / unit) as u64) } else { None::<u64> }),
            r.1.secs_spec() == 0,
            r.1.nanos_spec() == self.nanos_spec() % unit,
    {
        proof { use_type_invariant(self); }
        let wholes = (self.nanos / unit) as u64;
        Self::normalize_split(wholes, HumanTime { secs: 0, nanos: self.nanos % unit })
    }

    /// Splits this duration into whole years and the rest.
    fn split_years(self) -> (r: (Option<u64>, HumanTime))
        ensures
            r.0 == (if self.secs_spec() / S_YEAR > 0 { Some(self.secs_spec() / S_YEAR) } else { None::<u64> }),
            r.1.secs_spec() == self.secs_spec() % S_YEAR,
            r.1.nanos_spec() == self.nanos_spec(),
    {
        self.split_secs(S_YEAR)
    }

    /// Splits this duration into whole months and the rest.
    fn split_months(self) -> (r: (Option<u64>, HumanTime))
        ensures
            r.0 == (if self.secs_spec() / S_MONTH > 0 { Some(self.secs_spec() / S_MONTH) } else { None::<u64> }),
            r.1.secs_spec() == self.secs_spec() % S_MONTH,
            r.1.nanos_spec() == self.nanos_spec(),
    {
        self.split_secs(S_MONTH)
    }

    /// Splits this duration into whole weeks and the rest.
    fn split_weeks(self) -> (r: (Option<u64>, HumanTime))
        ensures
            r.0 == (if self.secs_spec() / S_WEEK > 0 { Some(self.secs_spec() / S_WEEK) } else { None::<u64> }),
            r.1.secs_spec() == self.secs_spec() % S_WEEK,
            r.1.nanos_spec() == self.nanos_spec(),
    {
        self.split_secs(S_WEEK)
    }

    /// Splits this duration into whole days and the rest.
    fn split_days(self) -> (r: (Option<u64>, HumanTime))
        ensures
            r.0 == (if self.secs_spec() / S_DAY > 0 { Some(self.secs_spec() / S_DAY) } else { None::<u64> }),
            r.1.secs_spec() == self.secs_spec() % S_DAY,
            r.1.nanos_spec() == self.nanos_spec(),
    {
        self.split_secs(S_DAY)
    }

    /// Splits this duration into whole hours and the rest.
    fn split_hours(self) -> (r: (Option<u64>, HumanTime))
        ensures
            r.0 == (if self.secs_spec() / S_HOUR > 0 { Some(self.secs_spec() / S_HOUR) } else { None::<u64> }),
            r.1.secs_spec() == self.secs_spec() % S_HOUR,
            r.1.nanos_spec() == self.nanos_spec(),
    {
        self.split_secs(S_HOUR)
    }

    /// Splits this duration into whole minutes and the rest.
    fn split_minutes(self) -> (r: (Option<u64>, HumanTime))
        ensures
            r.0 == (if self.secs_spec() / S_MINUTE > 0 { Some(self.secs_spec() / S_MINUTE) } else { None::<u64> }),
            r.1.secs_spec() == self.secs_spec() % S_MINUTE,
            r.1.nanos_spec() == self.nanos_spec(),
    {
        self.split_secs(S_MINUTE)
    }

    /// Splits this duration into whole seconds and the rest.
    fn split_seconds(self) -> (r: (Option<u64>, HumanTime))
        ensures
            r.0 == (if self.secs_spec() > 0 { Some(self.secs_spec()) } else { None::<u64> }),
            r.1.secs_spec() == 0,
            r.1.nanos_spec() == self.nanos_spec(),
    {
        self.split_secs(1)
    }

    /// Splits a sub-second duration into whole milliseconds and the rest.
    fn split_milliseconds(self) -> (r: (Option<u64>, HumanTime))
        requires
            self.secs_spec() == 0,
        ensures
            r.0 == (if self.nanos_spec() / 1_000_000 > 0 { Some((self.nanos_spec() / 1_000_000) as u64) } else { None::<u64> }),
            r.1.secs_spec() == 0,
            r.1.nanos_spec() == self.nanos_spec() % 1_000_000,
    {
        self.split_nanos(1_000_000)
    }

    /// Splits a sub-second duration into whole microseconds and the rest.
    fn split_microseconds(self) -> (r: (Option<u64>, HumanTime))
        requires
            self.secs_spec() == 0,
        ensures
            r.0 == (if self.nanos_spec() / 1000 > 0 { Some((self.nanos_spec() / 1000) as u64) } else { None::<u64> }),
            r.1.secs_spec() == 0,
            r.1.nanos_spec() == self.nanos_spec() % 1000,
    {
        self.split_nanos(1000)
    }

    /// Splits a sub-second duration into whole nanoseconds and the rest.
    fn split_nanoseconds(self) -> (r: (Option<u64>, HumanTime))
        requires
            self.secs_spec() == 0,
        ensures
            r.0 == (if self.nanos_spec() > 0 { Some(self.nanos_spec() as u64) } else { None::<u64> }),
            r.1.secs_spec() == 0,
            r.1.nanos_spec() == 0,
    {
        self.split_nanos(1)
    }
}

} // verus!

verus! {

impl TimePeriod {
    fn append_text(self, accuracy: Accuracy, out: &mut String)
        ensures
            final(out)@ == old(out)@ + period_text(self, accuracy),
    {
        match accuracy {
            Accuracy::Rough => self.append_text_rough(out),
            Accuracy::Precise => self.append_text_precise(out),
        }
    }
}

impl HumanTime {
    /// Appends the terms for whole years, months, weeks and days.
    fn push_calendar_terms(self, periods: &mut Vec<TimePeriod>) -> (rest: HumanTime)
        ensures
            final(periods)@ == old(periods)@ + calendar_terms(self.secs_spec()),
            rest.secs_spec() == below_day(self.secs_spec()),
            rest.nanos_spec() == self.nanos_spec(),
    {
        let ghost start = periods@;
        let (years, reminder) = self.split_years();
        if let Some(years) = years {
            periods.push(TimePeriod::Years(years));
        }
        let (months, reminder) = reminder.split_months();
        if let Some(months) = months {
            periods.push(TimePeriod::Months(months));
        }
        let (weeks, reminder) = reminder.split_weeks();
        if let Some(weeks) = weeks {
            periods.push(TimePeriod::Weeks(weeks));
        }
        let (days, reminder) = reminder.split_days();
        if let Some(days) = days {
            periods.push(TimePeriod::Days(days));
        }
        assert(periods@ =~= start + calendar_terms(self.secs_spec()));
        reminder
    }

    /// Appends the terms for whole hours, minutes and seconds.
    fn push_clock_terms(self, periods: &mut Vec<TimePeriod>) -> (rest: HumanTime)
        ensures
            final(periods)@ == old(periods)@ + clock_terms(self.secs_spec()),
            rest.secs_spec() == 0,
            rest.nanos_spec() == self.nanos_spec(),
    {
        let ghost start = periods@;
        let (hours, reminder) = self.split_hours();
        if let Some(hours) = hours {
            periods.push(TimePeriod::Hours(hours));
        }
        let (minutes, reminder) = reminder.split_minutes();
        if let Some(minutes) = minutes {
            periods.push(TimePeriod::Minutes(minutes));
        }
        let (seconds, reminder) = reminder.split_seconds();
        if let Some(seconds) = seconds {
            periods.push(TimePeriod::Seconds(seconds));
        }
        assert(periods@ =~= start + clock_terms(self.secs_spec()));
        reminder
    }

    /// Appends the terms for the sub-second part of a duration of less than
    /// a second.
    fn push_fraction_terms(self, periods: &mut Vec<TimePeriod>)
        requires
            self.secs_spec() == 0,
        ensures
            final(periods)@ == old(periods)@ + fraction_terms(self.nanos_spec()),
    {
        let ghost start = periods@;
        let (millis, reminder) = self.split_milliseconds();
        if let Some(millis) = millis {
            periods.push(TimePeriod::Millis(millis));
        }
        let (micros, reminder) = reminder.split_microseconds();
        if let Some(micros) = micros {
            periods.push(TimePeriod::Micros(micros));
        }
        let (nanos, _reminder) = reminder.split_nanoseconds();
        if let Some(nanos) = nanos {
            periods.push(TimePeriod::Nanos(nanos));
        }
        proof {
            vstd::arithmetic::div_mod::lemma_mod_mod(self.nanos_spec() as int, 1000, 1000);
            assert(periods@ =~= start + fraction_terms(self.nanos_spec()));
        }
    }

    /// The terms of the duration, largest unit first, each with a count of
    /// at least one; "0 seconds" when the duration is empty.
    pub fn precise_period(self) -> (r: Vec<TimePeriod>)
        ensures
            r@ == self.precise_period_spec(),
    {
        let mut periods: Vec<TimePeriod> = Vec::new();
        let rest = self.push_calendar_terms(&mut periods);
        let rest = rest.push_clock_terms(&mut periods);
        rest.push_fraction_terms(&mut periods);
        assert(periods@ =~= precise_terms(self.secs_spec(), self.nanos_spec()));
        if periods.len() == 0 {
            periods.push(TimePeriod::Seconds(0));
            assert(periods@ =~= seq![TimePeriod::Seconds(0)]);
        }
        periods
    }

    /// The duration in English at the given accuracy and tense.
    pub fn to_text_en(self, accuracy: Accuracy, tense: Tense) -> (r: String)
        ensures
            r@ == tense_text(join_terms(terms_text(self.period_spec(accuracy), accuracy)), tense),
    {
        let periods = match accuracy {
            Accuracy::Rough => self.rough_period(),
            Accuracy::Precise => self.precise_period(),
        };
        let ghost ts = terms_text(periods@, accuracy);
        let n = periods.len();
        let mut text = String::new();
        periods[0].append_text(accuracy, &mut text);
        proof {
            assert(ts.take(1) =~= seq![ts[0]]);
            assert(text@ =~= comma_join(ts.take(1)));
        }
        let mut i: usize = 1;
        while i < n - 1
            invariant
                n == periods@.len(),
                n >= 1,
                1 <= i <= n,
                n > 1 ==> i <= n - 1,
                ts == terms_text(periods@, accuracy),
                text@ == comma_join(ts.take(i as int)),
            decreases n - i,
        {
            let ghost before = text@;
            text.append(", ");
            periods[i].append_text(accuracy, &mut text);
            proof {
                assert(ts.take(i + 1).drop_last() =~= ts.take(i as int));
                assert(ts.take(i + 1).last() == ts[i as int]);
                assert(text@ =~= before + ", "@ + ts[i as int]);
            }
            i = i + 1;
        }
        if n > 1 {
            let ghost before = text@;
            text.append(" and ");
            periods[n - 1].append_text(accuracy, &mut text);
            proof {
                assert(ts.drop_last() =~= ts.take(i as int));
                assert(text@ =~= before + " and "@ + ts.last());
            }
        } else {
            assert(ts.take(i as int) =~= ts);
        }
        match tense {
            Tense::Past => {
                text.append(" ago");
                text
            },
            Tense::Future => {
                let mut r = String::from_str("in ");
                r.append(text.as_str());
                r
            },
            Tense::Present => text,
        }
    }

    /// The duration in English, in the tense it is naturally spoken in.
    pub fn locale_en(&self, accuracy: Accuracy) -> (r: String)
        ensures
            r@ == tense_text(
                join_terms(terms_text(self.period_spec(accuracy), accuracy)),
                self.tense_spec(accuracy),
            ),
    {
        let tense = self.tense(accuracy);
        self.to_text_en(accuracy, tense)
    }
}

impl Humanize for HumanTime {
    /// The rough English text of the duration.
    fn humanize(&self) -> String {
        self.locale_en(Accuracy::Rough)
    }
}

} // verus!
