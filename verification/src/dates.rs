//! Moments in time, and the dates of feeds, which the `chrono` crate writes.
use chrono::TimeZone;
use vstd::prelude::*;

verus! {

/// A moment: seconds since the beginning of 1970 in UTC, and nanoseconds of the
/// second. A leap second counts as the nanoseconds past the last second of its
/// minute.
#[derive(Clone, Copy, Debug, PartialEq, Eq, Structural)]
pub struct Moment {
    pub secs: i64,
    pub nanos: u32,
}

impl Moment {
    /// Whether the `chrono` crate can hold a moment: its year is from -262143 to
    /// 262142, and its nanoseconds are those of a second.
    pub open spec fn is_holdable(self) -> bool {
        &&& -8334601228800 <= self.secs <= 8210266876799
        &&& self.nanos < 1_000_000_000 || (self.nanos < 2_000_000_000 && self.secs as int % 60
            == 59)
    }

    /// Whether the year of a moment is from 0 to 9999, as a date of RFC 2822 needs it.
    pub open spec fn has_four_digit_year(self) -> bool {
        -62167219200 <= self.secs <= 253402300799
    }

    /// Whether the date of a moment can be asked for: there is no such moment, or its
    /// year has four digits.
    pub open spec fn is_datable(self) -> bool {
        self.is_holdable() ==> self.has_four_digit_year()
    }

    /// The date of a moment, if there is such a moment.
    pub open spec fn date(self) -> Option<Seq<char>> {
        rfc2822_date(self.secs, self.nanos)
    }

    /// Tests whether the date of a moment can be asked for.
    pub fn dates(&self) -> (r: bool)
        ensures
            r == self.is_datable(),
    {
        let holdable = -8334601228800 <= self.secs && self.secs <= 8210266876799 && (self.nanos
            < 1_000_000_000 || (self.nanos < 2_000_000_000 && minute_ends(self.secs)));
        !holdable || (-62167219200 <= self.secs && self.secs <= 253402300799)
    }

    /// The date of a moment in the form of RFC 2822, if there is such a moment.
    pub fn write_date(&self) -> (r: Option<String>)
        requires
            self.is_datable(),
        ensures
            r.deep_view() == self.date(),
            r is Some <==> self.is_holdable(),
    {
        utc_rfc2822(self.secs, self.nanos)
    }
}

/// Whether the last second of a minute begins.
fn minute_ends(secs: i64) -> (r: bool)
    ensures
        r == (secs as int % 60 == 59),
{
    if secs >= 0 {
        secs % 60 == 59
    } else if secs == i64::MIN {
        assert(i64::MIN as int % 60 == 52);
        false
    } else {
        let past: i64 = -secs;
        past % 60 == 1
    }
}

/// The date that the `chrono` crate writes for a number of seconds since 1970 and
/// of nanoseconds, if there is such a moment.
pub uninterp spec fn rfc2822_date(secs: i64, nanos: u32) -> Option<Seq<char>>;

/// Calls `timestamp_opt` of `chrono::Utc`, then `DateTime::to_rfc2822`. The first
/// gives nothing exactly for what is no moment; the second panics for a year with
/// more than four digits or before the year 0. The date depends on the numbers
/// alone.
#[verifier::external_body]
fn utc_rfc2822(secs: i64, nanos: u32) -> (r: Option<String>)
    requires
        (Moment { secs, nanos }).is_datable(),
    ensures
        r.deep_view() == rfc2822_date(secs, nanos),
        r is Some <==> (Moment { secs, nanos }).is_holdable(),
{
    chrono::Utc.timestamp_opt(secs, nanos).single().map(|moment| moment.to_rfc2822())
}

/// Whether a moment comes after another one.
pub open spec fn is_later(a: Moment, b: Moment) -> bool {
    a.secs > b.secs || (a.secs == b.secs && a.nanos > b.nanos)
}

/// Whether what has one date stands after what has another one, when things are put
/// in the order of their dates: those without a date come first.
pub open spec fn stands_after(a: Option<Moment>, b: Option<Moment>) -> bool {
    match (a, b) {
        (None, _) => false,
        (Some(_), None) => true,
        (Some(x), Some(y)) => is_later(x, y),
    }
}

/// Whether what has one date stands after what has another one.
pub fn comes_after(a: &Option<Moment>, b: &Option<Moment>) -> (r: bool)
    ensures
        r == stands_after(*a, *b),
{
    match (a, b) {
        (None, _) => false,
        (Some(_), None) => true,
        (Some(x), Some(y)) => x.secs > y.secs || (x.secs == y.secs && x.nanos > y.nanos),
    }
}

/// The dates of the years 0 to 9999 can always be written.
pub proof fn ordinary_dates_can_be_written(moment: Moment)
    requires
        -62167219200 <= moment.secs <= 253402300799,
    ensures
        moment.is_datable(),
{
}

/// What is dated comes after what is not, and after what is dated by an earlier second,
/// or by an earlier nanosecond of the same one.
pub proof fn dates_are_put_in_order(a: Option<Moment>, b: Option<Moment>)
    ensures
        a is None ==> !stands_after(a, b),
        a is Some && b is None ==> stands_after(a, b),
        a is Some && b is Some ==> (stands_after(a, b) <==> a->0.secs * 4_294_967_296
            + a->0.nanos > b->0.secs * 4_294_967_296 + b->0.nanos),
{
}

/// What is dated later comes after what is dated earlier, and what is not dated after
/// nothing.
pub proof fn dates_are_compared(a: Option<Moment>, b: Option<Moment>, r: bool)
    requires
        call_ensures(comes_after, (&a, &b), r),
    ensures
        a is None ==> !r,
        a is Some && b is None ==> r,
        a is Some && b is Some ==> (r <==> a->0.secs > b->0.secs || (a->0.secs == b->0.secs
            && a->0.nanos > b->0.nanos)),
{
}

/// The date that is written of a moment of the years 0 to 9999 is the one of its seconds
/// and nanoseconds.
pub proof fn dates_are_those_of_their_moments(moment: Moment, r: Option<String>, fits: bool)
    requires
        -62167219200 <= moment.secs <= 253402300799,
        moment.nanos < 1_000_000_000,
        call_ensures(Moment::write_date, (&moment,), r),
        call_ensures(Moment::dates, (&moment,), fits),
    ensures
        fits,
        r is Some && Some(r->0@) == rfc2822_date(moment.secs, moment.nanos),
{
}

/// The date of a moment behind the year 9999 cannot be asked for as long as there is such a
/// moment.
pub proof fn later_dates_cannot_be_written(moment: Moment, fits: bool)
    requires
        253402300799 < moment.secs <= 8210266876799,
        moment.nanos < 1_000_000_000,
        call_ensures(Moment::dates, (&moment,), fits),
    ensures
        !fits,
{
}

} // verus!
