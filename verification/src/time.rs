//! Instants of wall-clock time.
//!
//! A `Timestamp` is a UTC instant as `chrono` counts it: whole seconds since
//! the Unix epoch and nanoseconds into that second, which run past one
//! billion inside a leap second. Reading the clock and spelling instants as
//! text are left to `chrono`.

use chrono::{DateTime, SecondsFormat, Utc};
use vstd::prelude::*;

use crate::text;

verus! {

/// The first second that `chrono` can represent.
pub const MIN_SECS: i64 = -8_334_601_228_800;

/// The last second that `chrono` can represent.
pub const MAX_SECS: i64 = 8_210_266_876_799;

/// The first second of the year 0.
pub const YEAR_0_SECS: i64 = -62_167_219_200;

/// The last second of the year 9999.
pub const YEAR_9999_SECS: i64 = 253_402_300_799;

/// A UTC instant.
#[derive(Debug, Clone, Copy, PartialEq, Eq, Structural)]
pub struct Timestamp {
    secs: i64,
    nanos: u32,
}

/// Seconds and nanoseconds that name an instant: in range, with more than a
/// billion nanoseconds only in the last second of a minute.
pub open spec fn names_instant(secs: int, nanos: int) -> bool {
    &&& MIN_SECS <= secs <= MAX_SECS
    &&& 0 <= nanos < 2_000_000_000
    &&& nanos >= 1_000_000_000 ==> secs % 60 == 59
}

impl Timestamp {
    /// Whole seconds since the Unix epoch.
    pub closed spec fn secs(self) -> i64 {
        self.secs
    }

    /// Nanoseconds into the second.
    pub closed spec fn nanos(self) -> u32 {
        self.nanos
    }

    #[verifier::type_invariant]
    spec fn in_range(self) -> bool {
        names_instant(self.secs as int, self.nanos as int)
    }

    /// Whether this instant comes strictly before `other`.
    pub open spec fn lt(self, other: Timestamp) -> bool {
        self.secs() < other.secs() || (self.secs() == other.secs() && self.nanos()
            < other.nanos())
    }

    /// The instant with the given seconds and nanoseconds, where they name
    /// one.
    pub fn new(secs: i64, nanos: u32) -> (r: Option<Timestamp>)
        ensures
            match r {
                Some(t) => names_instant(secs as int, nanos as int) && t.secs() == secs
                    && t.nanos() == nanos,
                None => !names_instant(secs as int, nanos as int),
            },
    {
        if secs < MIN_SECS || secs > MAX_SECS || nanos >= 2_000_000_000 {
            return None;
        }
        let from_start: u64 = (secs - MIN_SECS) as u64;
        if nanos >= 1_000_000_000 && from_start % 60 != 59 {
            return None;
        }
        Some(Timestamp { secs, nanos })
    }

    /// The Unix epoch.
    pub fn epoch() -> (t: Timestamp)
        ensures
            t == instant(0, 0),
    {
        Timestamp { secs: 0, nanos: 0 }
    }

    /// Whole seconds since the Unix epoch.
    pub fn seconds(&self) -> (r: i64)
        ensures
            r == self.secs(),
            MIN_SECS <= r <= MAX_SECS,
    {
        proof {
            use_type_invariant(self);
        }
        self.secs
    }

    /// Whether this instant comes strictly before `other`.
    pub fn is_before(&self, other: &Timestamp) -> (r: bool)
        ensures
            r == self.lt(*other),
    {
        self.secs < other.secs || (self.secs == other.secs && self.nanos < other.nanos)
    }

    /// The instant `n` seconds later; `None` where that is past the last
    /// one.
    pub fn plus_seconds(&self, n: u64) -> (r: Option<Timestamp>)
        requires
            1 <= n <= 1_000_000_000,
        ensures
            r == seconds_after(*self, n as int),
    {
        proof {
            use_type_invariant(self);
        }
        if self.secs > MAX_SECS - n as i64 {
            None
        } else {
            Some(Timestamp { secs: self.secs + n as i64, nanos: self.nanos % 1_000_000_000 })
        }
    }
}

/// The instant with the given seconds and nanoseconds.
pub closed spec fn instant(secs: i64, nanos: u32) -> Timestamp {
    Timestamp { secs, nanos }
}

/// An instant is made of its seconds and nanoseconds.
pub proof fn lemma_instant(secs: i64, nanos: u32)
    ensures
        instant(secs, nanos).secs() == secs,
        instant(secs, nanos).nanos() == nanos,
{
}

/// The instant `n` seconds after `t`, for one second or more: a leap second
/// is left behind. `None` past the last instant.
pub open spec fn seconds_after(t: Timestamp, n: int) -> Option<Timestamp> {
    if t.secs() + n <= MAX_SECS {
        Some(instant((t.secs() + n) as i64, (t.nanos() % 1_000_000_000u32) as u32))
    } else {
        None
    }
}

// ---------------------------------------------------------------------
// Elapsed time
// ---------------------------------------------------------------------

/// The second of its day in which an instant falls.
pub open spec fn second_of_day(t: Timestamp) -> int {
    t.secs() as int % 86_400
}

/// The nanoseconds from `earlier` to `later`. A leap second counts where it
/// lies between the two times of day.
pub open spec fn nanos_between(later: Timestamp, earlier: Timestamp) -> int {
    let leap: int = if second_of_day(later) > second_of_day(earlier) && earlier.nanos()
        >= 1_000_000_000 {
        1
    } else if second_of_day(later) < second_of_day(earlier) && later.nanos() >= 1_000_000_000 {
        -1
    } else {
        0
    };
    (later.secs() - earlier.secs() + leap) * 1_000_000_000 + later.nanos() - earlier.nanos()
}

/// The whole milliseconds from `earlier` to `later`, negative where `later`
/// comes first.
pub open spec fn millis_between(later: Timestamp, earlier: Timestamp) -> int {
    let n = nanos_between(later, earlier);
    if n >= 0 {
        n / 1_000_000
    } else {
        -((-n) / 1_000_000)
    }
}

/// The whole milliseconds from `earlier` to `later`.
pub fn elapsed_millis(later: &Timestamp, earlier: &Timestamp) -> (r: i64)
    ensures
        r == millis_between(*later, *earlier),
{
    proof {
        use_type_invariant(later);
        use_type_invariant(earlier);
    }
    let later_of_day: u64 = (later.secs - MIN_SECS) as u64 % 86_400;
    let earlier_of_day: u64 = (earlier.secs - MIN_SECS) as u64 % 86_400;
    assert(MIN_SECS == -96_465_292 * 86_400);
    assert(later_of_day == second_of_day(*later)) by {
        vstd::arithmetic::div_mod::lemma_mod_multiples_vanish(
            96_465_292,
            later.secs as int,
            86_400,
        );
    }
    assert(earlier_of_day == second_of_day(*earlier)) by {
        vstd::arithmetic::div_mod::lemma_mod_multiples_vanish(
            96_465_292,
            earlier.secs as int,
            86_400,
        );
    }
    let leap: i64 = if later_of_day > earlier_of_day && earlier.nanos >= 1_000_000_000 {
        1
    } else if later_of_day < earlier_of_day && later.nanos >= 1_000_000_000 {
        -1
    } else {
        0
    };
    let secs: i128 = (later.secs - earlier.secs + leap) as i128;
    let n: i128 = secs * 1_000_000_000 + later.nanos as i128 - earlier.nanos as i128;
    if n >= 0 {
        (n / 1_000_000) as i64
    } else {
        let magnitude: i128 = -n;
        -((magnitude / 1_000_000) as i64)
    }
}

// ---------------------------------------------------------------------
// chrono
// ---------------------------------------------------------------------

/// What `DateTime::to_rfc3339_opts` writes for an instant with as many
/// fractional digits as it needs, with `Z` or with `+00:00` at the end.
pub uninterp spec fn rfc3339_text(secs: i64, nanos: u32, use_z: bool) -> Seq<char>;

/// What `DateTime::parse_from_rfc3339` reads in a text: the seconds and
/// nanoseconds of the instant, `None` where it finds an error.
pub uninterp spec fn rfc3339_parse(s: Seq<char>) -> Option<(i64, u32)>;

/// What `DateTime::format` writes for an instant under a format string.
pub uninterp spec fn strftime_text(secs: i64, nanos: u32, format: Seq<char>) -> Seq<char>;

/// The spelling of an instant with `+00:00` at the end.
pub open spec fn stamp(t: Timestamp) -> Seq<char> {
    rfc3339_text(t.secs(), t.nanos(), false)
}

/// The spelling of an instant with `Z` at the end.
pub open spec fn stamp_z(t: Timestamp) -> Seq<char> {
    rfc3339_text(t.secs(), t.nanos(), true)
}

/// An instant in the years 0 to 9999, which have four digits.
pub open spec fn four_digit_year(t: Timestamp) -> bool {
    YEAR_0_SECS <= t.secs() <= YEAR_9999_SECS
}

/// A text that stands among the spellings of instants where `t` stands among
/// the instants themselves, as far as their years have four digits.
pub open spec fn in_order(s: Seq<char>, t: Timestamp) -> bool {
    forall|o: Timestamp|
        four_digit_year(o) ==> text::text_lt(s, #[trigger] stamp(o)) == t.lt(o) && text::text_lt(
            stamp(o),
            s,
        ) == o.lt(t)
}

/// The format of the date and minute that begin a slug.
pub const SLUG_FORMAT: &'static str = "%Y-%m-%d-%H%M";

/// The format of the date that begins the name of a decision.
pub const DATE_FORMAT: &'static str = "%Y-%m-%d";

/// The format of the second at which an agent's activity happened.
pub const EVENT_FORMAT: &'static str = "%Y-%m-%d %H:%M:%S";

/// What a clock can show: an instant outside any leap second, not before the
/// epoch.
pub open spec fn on_clock(t: Timestamp) -> bool {
    t.secs() >= 0 && t.nanos() < 1_000_000_000
}

/// `Utc::now`: the reading of the system clock, of which nothing is said
/// but that it is an instant outside any leap second, not before the epoch.
#[verifier::external_body]
pub(crate) fn now() -> (t: Timestamp)
    ensures
        on_clock(t),
{
    let t = Utc::now();
    Timestamp { secs: t.timestamp(), nanos: t.timestamp_subsec_nanos() }
}

/// `DateTime::to_rfc3339_opts` with as many fractional digits as needed: the
/// text depends on the instant and on the choice of `Z`, ends in `Z` or in
/// `+00:00`, and is read back as the same instant where the year has four
/// digits. Such texts with `+00:00` are ordered as their instants are: their
/// fields have a fixed width and go from the year down, the fraction has as
/// many digits as its thousands need, and `+` comes before `.` and before the
/// digits.
#[verifier::external_body]
pub(crate) fn rfc3339(t: &Timestamp, use_z: bool) -> (r: String)
    ensures
        r@ == rfc3339_text(t.secs(), t.nanos(), use_z),
        text::has_suffix(r@, if use_z { "Z"@ } else { "+00:00"@ }),
        four_digit_year(*t) ==> rfc3339_parse(r@) == Some((t.secs(), t.nanos())),
        four_digit_year(*t) && !use_z ==> in_order(r@, *t),
{
    let d = DateTime::<Utc>::from_timestamp(t.secs, t.nanos).unwrap();
    d.to_rfc3339_opts(SecondsFormat::AutoSi, use_z)
}

/// `DateTime::parse_from_rfc3339`, the result taken to UTC: what it reads
/// depends on the text alone.
#[verifier::external_body]
pub(crate) fn parse_rfc3339(s: &str) -> (r: Option<Timestamp>)
    ensures
        match r {
            Some(t) => rfc3339_parse(s@) == Some((t.secs(), t.nanos())),
            None => rfc3339_parse(s@) is None,
        },
{
    let d = DateTime::parse_from_rfc3339(s).ok()?.with_timezone(&Utc);
    Some(Timestamp { secs: d.timestamp(), nanos: d.timestamp_subsec_nanos() })
}

/// `DateTime::format` under one of the three formats in use: the text depends
/// on the instant and on the format.
#[verifier::external_body]
pub(crate) fn strftime(t: &Timestamp, format: &str) -> (r: String)
    requires
        format@ == SLUG_FORMAT@ || format@ == DATE_FORMAT@ || format@ == EVENT_FORMAT@,
    ensures
        r@ == strftime_text(t.secs(), t.nanos(), format@),
{
    let d = DateTime::<Utc>::from_timestamp(t.secs, t.nanos).unwrap();
    d.format(format).to_string()
}

/// Where the year of an instant has four digits, its spelling is read as the
/// instant and stands among other spellings where the instant stands.
pub open spec fn well_spelled(t: Timestamp) -> bool {
    four_digit_year(t) ==> {
        &&& read_stamp(stamp(t)) == Some(t)
        &&& stamp(t).len() > 0
        &&& in_order(stamp(t), t)
    }
}

/// The spelling of an instant with `+00:00` at the end.
pub fn stamp_text(t: &Timestamp) -> (r: String)
    ensures
        r@ == stamp(*t),
        text::has_suffix(r@, "+00:00"@),
        well_spelled(*t),
{
    proof {
        reveal_strlit("+00:00");
    }
    rfc3339(t, false)
}

/// The instant that an RFC 3339 text spells.
pub open spec fn read_stamp(s: Seq<char>) -> Option<Timestamp> {
    match rfc3339_parse(s) {
        Some((secs, nanos)) => Some(instant(secs, nanos)),
        None => None,
    }
}

/// The instant that an RFC 3339 text spells.
pub fn parse_stamp(s: &str) -> (r: Option<Timestamp>)
    ensures
        r == read_stamp(s@),
{
    parse_rfc3339(s)
}

/// Instants are in order by their seconds, and within a second by their
/// nanoseconds; of two that differ in either, one comes first.
pub proof fn lemma_instants_in_order(a: Timestamp, b: Timestamp)
    ensures
        a.secs() < b.secs() ==> a.lt(b) && !b.lt(a),
        a.secs() == b.secs() && a.nanos() < b.nanos() ==> a.lt(b) && !b.lt(a),
        a.secs() == b.secs() && a.nanos() == b.nanos() ==> !a.lt(b),
{
}

} // verus!
