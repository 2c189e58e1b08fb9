//! Moments in UTC: reading them, measuring the time between them and putting it in words.

use vstd::prelude::*;

use crate::calendar;

verus! {

/// Nanoseconds in a second.
pub const SECOND: u32 = 1_000_000_000;

/// The first second that a moment can lie in: the start of the year -262143.
pub const FIRST_SECOND: i64 = -8_334_601_228_800;

/// The last second that a moment can lie in: the end of the year 262142.
pub const LAST_SECOND: i64 = 8_210_266_876_799;

/// A moment: the seconds since the start of 1970, leap seconds not counted, and the nanoseconds
/// since that second began. In a leap second, which has the number of the second before it,
/// `nanos` is a second or more.
pub struct Moment {
    pub secs: int,
    pub nanos: int,
}

impl Moment {
    /// Whether this is a moment in the supported range of years. Only the last second of a
    /// minute can be followed by a leap second.
    pub open spec fn valid(self) -> bool {
        &&& FIRST_SECOND <= self.secs <= LAST_SECOND
        &&& 0 <= self.nanos < 2 * SECOND
        &&& self.nanos >= SECOND ==> self.secs % 60 == 59
    }

    /// Whether this moment lies in a leap second.
    pub open spec fn in_leap_second(self) -> bool {
        self.nanos >= SECOND
    }

    /// The second of the day.
    pub open spec fn second_of_day(self) -> int {
        self.secs % 86_400
    }

    /// The nanoseconds from `earlier` to this moment, negative where it is not the earlier one.
    /// A leap second counts if one of the two moments lies in it and the other one has the later
    /// time of day.
    pub open spec fn since(self, earlier: Moment) -> int {
        let leap: int = if self.second_of_day() > earlier.second_of_day()
            && earlier.in_leap_second() {
            1
        } else if self.second_of_day() < earlier.second_of_day() && self.in_leap_second() {
            -1
        } else {
            0
        };
        (self.secs - earlier.secs + leap) * SECOND + self.nanos - earlier.nanos
    }

    /// The moment `secs` seconds before this one, a leap second that this one lies in counted.
    pub open spec fn back(self, secs: int) -> Moment {
        if self.in_leap_second() {
            Moment { secs: self.secs + 1 - secs, nanos: self.nanos - SECOND }
        } else {
            Moment { secs: self.secs - secs, nanos: self.nanos }
        }
    }
}

// ---------------------------------------------------------------------------
// chrono and chrono-humanize
// ---------------------------------------------------------------------------

/// What `chrono::DateTime::parse_from_rfc3339` reads in a text: the seconds and nanoseconds of
/// the moment in UTC, or nothing.
pub uninterp spec fn rfc3339(s: Seq<char>) -> Option<(i64, u32)>;

/// How `chrono_humanize::HumanTime` words a time span of so many seconds and nanoseconds.
pub uninterp spec fn human_time(secs: i64, nanos: u32) -> Seq<char>;

/// `chrono::DateTime::parse_from_rfc3339`, with the result in UTC. What it reads is a moment in
/// the supported range, and a plain `2026-09-24T21:00:00Z` is read as the time that it says. What
/// other forms of RFC 3339 are read as is left to the name.
#[verifier::external_body]
fn parse_from_rfc3339(s: &str) -> (r: Option<(i64, u32)>)
    ensures
        r == rfc3339(s@),
        r matches Some((secs, nanos)) ==> (Moment {
            secs: secs as int,
            nanos: nanos as int,
        }).valid(),
        forall|t: calendar::Civil| #[trigger]
            t.valid() && s@ == t.text() ==> r == Some((t.secs() as i64, 0u32)),
{
    match chrono::DateTime::parse_from_rfc3339(s) {
        Ok(t) => Some((t.timestamp(), t.timestamp_subsec_nanos())),
        Err(_) => None,
    }
}

/// `chrono::DateTime::signed_duration_since`, on two moments in seconds and nanoseconds. The
/// span is in whole seconds and the nanoseconds that are left, both of the span's sign.
#[verifier::external_body]
fn signed_duration_since(a_secs: i64, a_nanos: u32, b_secs: i64, b_nanos: u32) -> (r: (i64, i32))
    requires
        (Moment { secs: a_secs as int, nanos: a_nanos as int }).valid(),
        (Moment { secs: b_secs as int, nanos: b_nanos as int }).valid(),
    ensures
        r.0 * SECOND + r.1 == (Moment { secs: a_secs as int, nanos: a_nanos as int }).since(
            Moment { secs: b_secs as int, nanos: b_nanos as int },
        ),
        -SECOND < r.1 < SECOND,
        r.0 > 0 ==> r.1 >= 0,
        r.0 < 0 ==> r.1 <= 0,
{
    let a = chrono::DateTime::from_timestamp(a_secs, a_nanos).unwrap();
    let b = chrono::DateTime::from_timestamp(b_secs, b_nanos).unwrap();
    let span = a.signed_duration_since(b);
    (span.num_seconds(), span.subsec_nanos())
}

/// `chrono::DateTime` minus a `chrono::TimeDelta` of `delta` seconds.
#[verifier::external_body]
fn minus_seconds(secs: i64, nanos: u32, delta: i64) -> (r: (i64, u32))
    requires
        (Moment { secs: secs as int, nanos: nanos as int }).valid(),
        (Moment { secs: secs as int, nanos: nanos as int }).back(delta as int).valid(),
        0 < delta <= 9_223_372_036_854_775,
    ensures
        (Moment { secs: r.0 as int, nanos: r.1 as int }) == (Moment {
            secs: secs as int,
            nanos: nanos as int,
        }).back(delta as int),
{
    let t = chrono::DateTime::from_timestamp(secs, nanos).unwrap();
    let r = t - chrono::TimeDelta::seconds(delta);
    (r.timestamp(), r.timestamp_subsec_nanos())
}

/// `chrono::DateTime::format`, in UTC, with the one format that asks for the year, the month and
/// the day of the month in this order and with dashes between them.
#[verifier::external_body]
fn format_date(secs: i64, nanos: u32, format: &str) -> (s: String)
    requires
        (Moment { secs: secs as int, nanos: nanos as int }).valid(),
        format@ == "%Y-%m-%d"@,
    ensures
        s@ == calendar::date_of(secs as int / 86_400).text(),
{
    chrono::DateTime::from_timestamp(secs, nanos).unwrap().format(format).to_string()
}

/// `chrono_humanize::HumanTime` of a `chrono::TimeDelta`, as text. The words depend on the span
/// alone; which they are is left to the name.
#[verifier::external_body]
fn humanized(secs: i64, nanos: u32) -> (s: String)
    requires
        -9_223_372_036_854_775 < secs < 9_223_372_036_854_775,
        nanos < SECOND,
    ensures
        s@ == human_time(secs, nanos),
{
    chrono_humanize::HumanTime::from(chrono::TimeDelta::new(secs, nanos).unwrap()).to_string()
}

// ---------------------------------------------------------------------------
// Timestamps
// ---------------------------------------------------------------------------

/// A moment in UTC, with nanosecond precision.
#[derive(Debug, Clone, Copy, PartialEq, Eq)]
pub struct Timestamp {
    secs: i64,
    nanos: u32,
}

impl DeepView for Timestamp {
    type V = Moment;

    closed spec fn deep_view(&self) -> Moment {
        Moment { secs: self.secs as int, nanos: self.nanos as int }
    }
}

/// A span of time: whole seconds, rounded down, and the nanoseconds that are left.
#[derive(Debug, Clone, Copy, PartialEq, Eq)]
pub struct Span {
    pub secs: i64,
    pub nanos: u32,
}

impl Span {
    /// Whether this span is `nanos` nanoseconds long.
    pub open spec fn lasts(self, nanos: int) -> bool {
        self.secs == nanos / (SECOND as int) && self.nanos == nanos % (SECOND as int)
    }
}

/// Whether `s` is the time `t` as GitHub writes it, such as `2026-09-24T21:00:00Z`.
pub open spec fn writes(s: Seq<char>, t: calendar::Civil) -> bool {
    t.valid() && s == t.text()
}

/// The moment that an RFC 3339 text stands for: the one that it says, if it is written as GitHub
/// writes times, else what `rfc3339` reads in it.
pub open spec fn moment_in(s: Seq<char>) -> Option<Moment> {
    if exists|t: calendar::Civil| writes(s, t) {
        let t = choose|t: calendar::Civil| writes(s, t);
        Some(Moment { secs: t.secs(), nanos: 0 })
    } else {
        match rfc3339(s) {
            Some((secs, nanos)) => Some(Moment { secs: secs as int, nanos: nanos as int }),
            None => None,
        }
    }
}

/// How a span of so many nanoseconds is put in words.
pub open spec fn span_text(nanos: int) -> Seq<char> {
    human_time((nanos / (SECOND as int)) as i64, (nanos % (SECOND as int)) as u32)
}

/// How the time from `then` to `now` is put in words; `raw` where there is no such time.
pub open spec fn age_text(then: Option<Moment>, raw: Seq<char>, now: Moment) -> Seq<char> {
    match then {
        Some(t) => span_text(t.since(now)),
        None => raw,
    }
}

impl Timestamp {
    #[verifier::type_invariant]
    closed spec fn well_formed(self) -> bool {
        self.deep_view().valid()
    }

    /// The moment `nanos` nanoseconds after the start of second `secs`, if it is one.
    pub fn new(secs: i64, nanos: u32) -> (t: Option<Timestamp>)
        ensures
            t.deep_view() == if (Moment { secs: secs as int, nanos: nanos as int }).valid() {
                Some(Moment { secs: secs as int, nanos: nanos as int })
            } else {
                None
            },
    {
        if FIRST_SECOND <= secs && secs <= LAST_SECOND && nanos < 2 * SECOND && (nanos < SECOND || (
        secs - FIRST_SECOND) % 60 == 59) {
            Some(Timestamp { secs, nanos })
        } else {
            None
        }
    }

    /// The moment that an RFC 3339 text stands for.
    pub fn parse(s: &str) -> (t: Option<Timestamp>)
        ensures
            t.deep_view() == moment_in(s@),
    {
        let parsed = parse_from_rfc3339(s);
        proof {
            if exists|c: calendar::Civil| writes(s@, c) {
                let c = choose|c: calendar::Civil| writes(s@, c);
                assert(c.valid() && s@ == c.text());
                calendar::lemma_secs_bounds(c);
            }
        }
        match parsed {
            Some((secs, nanos)) => Some(Timestamp { secs, nanos }),
            None => None,
        }
    }

    /// The span from `earlier` to this moment.
    pub fn since(&self, earlier: &Timestamp) -> (span: Span)
        ensures
            span.lasts(self.deep_view().since(earlier.deep_view())),
            -20_000_000_000_000 < span.secs < 20_000_000_000_000,
    {
        proof {
            use_type_invariant(self);
            use_type_invariant(earlier);
        }
        let (secs, nanos) = signed_duration_since(
            self.secs,
            self.nanos,
            earlier.secs,
            earlier.nanos,
        );
        if nanos < 0 {
            Span { secs: secs - 1, nanos: (nanos + SECOND as i32) as u32 }
        } else {
            Span { secs, nanos: nanos as u32 }
        }
    }

    /// The date `secs` seconds before this moment, in the form `2026-09-03`.
    pub fn date_before(&self, secs: i64) -> (s: String)
        requires
            0 < secs <= 9_223_372_036_854_775,
            self.deep_view().back(secs as int).secs >= FIRST_SECOND,
        ensures
            s@ == calendar::date_of(self.deep_view().back(secs as int).secs / 86_400).text(),
    {
        proof {
            use_type_invariant(self);
        }
        let (back_secs, back_nanos) = minus_seconds(self.secs, self.nanos, secs);
        format_date(back_secs, back_nanos, "%Y-%m-%d")
    }
}

/// Words the time from `then` to `now`; gives `raw` back where there is no such time.
pub fn age(then: Option<Timestamp>, raw: &str, now: Timestamp) -> (s: String)
    ensures
        s@ == age_text(then.deep_view(), raw@, now.deep_view()),
{
    match then {
        Some(t) => {
            let span = t.since(&now);
            humanized(span.secs, span.nanos)
        },
        None => raw.to_owned(),
    }
}

/// e.g. "an hour ago", "3 months ago". Falls back to the raw string if it isn't RFC 3339.
pub fn relative_time(timestamp: &str, now: Timestamp) -> (s: String)
    ensures
        s@ == age_text(moment_in(timestamp@), timestamp@, now.deep_view()),
{
    age(Timestamp::parse(timestamp), timestamp, now)
}

// ---------------------------------------------------------------------------
// Laws
// ---------------------------------------------------------------------------

/// A time that is written as GitHub writes times is read as the time that it says.
pub proof fn law_written_times_are_read(t: calendar::Civil)
    requires
        t.valid(),
    ensures
        moment_in(t.text()) == Some(Moment { secs: t.secs(), nanos: 0 }),
{
    assert(writes(t.text(), t));
    let c = choose|c: calendar::Civil| writes(t.text(), c);
    calendar::law_text_order_is_chronological(t, c);
}

/// The time from one moment to another is what the clock shows, to the nanosecond, and to go from
/// the one to the other takes as long as to go back.
pub proof fn law_spans_are_differences(a: Moment, b: Moment)
    ensures
        !a.in_leap_second() && !b.in_leap_second() ==> a.since(b) == (a.secs - b.secs)
            * 1_000_000_000 + a.nanos - b.nanos,
        a.since(b) == -b.since(a),
        a.since(a) == 0,
{
    assert((a.secs - b.secs) * 1_000_000_000 == a.secs * 1_000_000_000 - b.secs * 1_000_000_000)
        by (nonlinear_arith);
    assert((b.secs - a.secs) * 1_000_000_000 == b.secs * 1_000_000_000 - a.secs * 1_000_000_000)
        by (nonlinear_arith);
}

/// To go back leaves the fraction of the second as it is, and takes as long as was asked.
pub proof fn law_going_back_takes_its_time(a: Moment, secs: int)
    requires
        !a.in_leap_second(),
    ensures
        a.back(secs).secs == a.secs - secs,
        a.back(secs).nanos == a.nanos,
        a.since(a.back(secs)) == secs * 1_000_000_000,
{
}

/// An age is the span from then to now, in words; where the time is not known, the text that
/// should have said it is shown.
pub proof fn law_ages_are_spans(then: Option<Moment>, raw: Seq<char>, now: Moment)
    ensures
        then is None ==> age_text(then, raw, now) == raw,
        then matches Some(t) ==> age_text(then, raw, now) == human_time(
            (t.since(now) / 1_000_000_000) as i64,
            (t.since(now) % 1_000_000_000) as u32,
        ),
{
}

/// A text that is not written as GitHub writes times is read by chrono.
pub proof fn law_other_times_are_read_by_chrono(s: Seq<char>)
    requires
        forall|t: calendar::Civil| #[trigger] t.valid() ==> s != t.text(),
    ensures
        rfc3339(s) is None ==> moment_in(s) is None,
        rfc3339(s) matches Some((secs, nanos)) ==> moment_in(s) == Some(
            Moment { secs: secs as int, nanos: nanos as int },
        ),
{
    assert forall|t: calendar::Civil| !writes(s, t) by {
        if t.valid() {
            assert(s != t.text());
        }
    }
}

} // verus!
