//! The proleptic Gregorian calendar, and dates and times of day as text.

use vstd::prelude::*;

use crate::number;
use crate::text;

verus! {

/// Whether `year` has a 29th of February.
pub open spec fn is_leap_year(year: int) -> bool {
    year % 4 == 0 && (year % 100 != 0 || year % 400 == 0)
}

/// How many days `month` of `year` has.
pub open spec fn days_in_month(year: int, month: int) -> int {
    if month == 2 {
        if is_leap_year(year) {
            29
        } else {
            28
        }
    } else if month == 4 || month == 6 || month == 9 || month == 11 {
        30
    } else {
        31
    }
}

/// How many days of `year` lie before its `month`.
pub open spec fn days_before_month(year: int, month: int) -> int
    decreases month,
{
    if month <= 1 {
        0
    } else {
        days_before_month(year, month - 1) + days_in_month(year, month - 1)
    }
}

/// How many days lie between the first of January of year 1 and that of `year`.
pub open spec fn days_before_year(year: int) -> int {
    365 * (year - 1) + (year - 1) / 4 - (year - 1) / 100 + (year - 1) / 400
}

/// `n` in `width` decimal digits, with leading zeros.
#[verifier::opaque]
pub open spec fn padded(n: int, width: nat) -> Seq<char>
    decreases width,
{
    if width == 0 {
        seq![]
    } else {
        padded(n / 10, (width - 1) as nat).push(number::digit(n % 10))
    }
}

/// A year in text: four digits, or a sign and at least four digits where it has more than four
/// or is negative.
pub open spec fn year_text(year: int) -> Seq<char> {
    if 0 <= year <= 9999 {
        padded(year, 4)
    } else {
        let sign = if year < 0 {
            '-'
        } else {
            '+'
        };
        let size = if year < 0 {
            -year
        } else {
            year
        };
        seq![sign] + if size <= 9999 {
            padded(size, 4)
        } else {
            number::decimal(size as nat)
        }
    }
}

/// A date.
pub struct Date {
    pub year: int,
    pub month: int,
    pub day: int,
}

impl Date {
    /// Whether the calendar has this date.
    pub open spec fn valid(self) -> bool {
        1 <= self.month <= 12 && 1 <= self.day <= days_in_month(self.year, self.month)
    }

    /// How many days this date lies after the first of January 1970.
    pub open spec fn day_number(self) -> int {
        days_before_year(self.year) + days_before_month(self.year, self.month) + self.day - 1
            - 719_162
    }

    /// Whether this date is earlier than `other`.
    pub open spec fn before(self, other: Date) -> bool {
        ||| self.year < other.year
        ||| self.year == other.year && self.month < other.month
        ||| self.year == other.year && self.month == other.month && self.day < other.day
    }

    /// The date in the form `2026-09-03`.
    pub open spec fn text(self) -> Seq<char> {
        year_text(self.year) + seq!['-'] + padded(self.month, 2) + seq!['-'] + padded(self.day, 2)
    }
}

/// The date that lies `number` days after the first of January 1970.
pub open spec fn date_of(number: int) -> Date {
    choose|d: Date| #[trigger] d.valid() && d.day_number() == number
}

/// A date and a time of day in UTC, to the second, with a year of four digits.
pub struct Civil {
    pub date: Date,
    pub hour: int,
    pub minute: int,
    pub second: int,
}

impl Civil {
    /// Whether the calendar and the clock have this date and time.
    pub open spec fn valid(self) -> bool {
        &&& self.date.valid()
        &&& 0 <= self.date.year <= 9999
        &&& 0 <= self.hour <= 23
        &&& 0 <= self.minute <= 59
        &&& 0 <= self.second <= 59
    }

    /// The seconds between the start of 1970 and this time.
    pub open spec fn secs(self) -> int {
        self.date.day_number() * 86_400 + self.hour * 3_600 + self.minute * 60 + self.second
    }

    /// The time in the form `2026-09-24T21:00:00Z`.
    pub open spec fn text(self) -> Seq<char> {
        self.date.text() + seq!['T'] + padded(self.hour, 2) + seq![':'] + padded(self.minute, 2)
            + seq![':'] + padded(self.second, 2) + seq!['Z']
    }
}

// ---------------------------------------------------------------------------
// Dates and day numbers
// ---------------------------------------------------------------------------

/// Later months of a year lie after earlier ones.
proof fn lemma_months(year: int, a: int, b: int)
    requires
        1 <= a < b <= 12,
    ensures
        days_before_month(year, a) + days_in_month(year, a) <= days_before_month(year, b),
    decreases b - a,
{
    if b > a + 1 {
        lemma_months(year, a, b - 1);
    }
}

/// How many days a year has before its December.
proof fn lemma_before_december(year: int)
    ensures
        days_before_month(year, 12) == if is_leap_year(year) {
            335int
        } else {
            334
        },
{
    let leap: int = if is_leap_year(year) {
        1
    } else {
        0
    };
    assert(days_before_month(year, 1) == 0);
    assert(days_before_month(year, 2) == 31);
    assert(days_before_month(year, 3) == 59 + leap);
    assert(days_before_month(year, 4) == 90 + leap);
    assert(days_before_month(year, 5) == 120 + leap);
    assert(days_before_month(year, 6) == 151 + leap);
    assert(days_before_month(year, 7) == 181 + leap);
    assert(days_before_month(year, 8) == 212 + leap);
    assert(days_before_month(year, 9) == 243 + leap);
    assert(days_before_month(year, 10) == 273 + leap);
    assert(days_before_month(year, 11) == 304 + leap);
}

/// A quotient grows by one at each multiple of the divisor.
proof fn lemma_quotient_grows(y: int, d: int)
    requires
        d == 4 || d == 100 || d == 400,
    ensures
        y / d - (y - 1) / d == if y % d == 0 {
            1int
        } else {
            0
        },
{
    if d == 4 {
        assert(y / 4 - (y - 1) / 4 == if y % 4 == 0 { 1int } else { 0 });
    } else if d == 100 {
        assert(y / 100 - (y - 1) / 100 == if y % 100 == 0 { 1int } else { 0 });
    } else {
        assert(y / 400 - (y - 1) / 400 == if y % 400 == 0 { 1int } else { 0 });
    }
}

/// A multiple of 400 is one of 100, and a multiple of 100 is one of 4.
proof fn lemma_multiples(y: int)
    ensures
        y % 400 == 0 ==> y % 100 == 0,
        y % 100 == 0 ==> y % 4 == 0,
{
}

/// How long a year is.
proof fn lemma_year_length(year: int)
    ensures
        days_before_month(year, 12) + 31 == days_before_year(year + 1) - days_before_year(year),
{
    lemma_before_december(year);
    lemma_quotient_grows(year, 4);
    lemma_quotient_grows(year, 100);
    lemma_quotient_grows(year, 400);
    lemma_multiples(year);
}

/// A date's place in its year.
proof fn lemma_within_year(d: Date)
    requires
        d.valid(),
    ensures
        0 <= days_before_month(d.year, d.month) + d.day - 1 < days_before_year(d.year + 1)
            - days_before_year(d.year),
{
    lemma_year_length(d.year);
    if d.month > 1 {
        lemma_months(d.year, 1, d.month);
    }
    if d.month < 12 {
        lemma_months(d.year, d.month, 12);
    }
}

/// Later years lie after earlier ones.
proof fn lemma_years(a: int, b: int)
    requires
        a <= b,
    ensures
        days_before_year(a) <= days_before_year(b),
{
    assert((a - 1) / 100 - (a - 1) / 400 <= (b - 1) / 100 - (b - 1) / 400 + 1);
}

/// The day number grows with the date: of two dates, the earlier one has the smaller number.
pub proof fn law_day_number_follows_the_calendar(a: Date, b: Date)
    requires
        a.valid(),
        b.valid(),
    ensures
        a.before(b) <==> a.day_number() < b.day_number(),
        a == b <==> a.day_number() == b.day_number(),
{
    if a.before(b) {
        lemma_day_number_grows(a, b);
    } else if b.before(a) {
        lemma_day_number_grows(b, a);
    }
}

proof fn lemma_day_number_grows(a: Date, b: Date)
    requires
        a.valid(),
        b.valid(),
        a.before(b),
    ensures
        a.day_number() < b.day_number(),
{
    lemma_within_year(a);
    lemma_within_year(b);
    if a.year < b.year {
        lemma_years(a.year + 1, b.year);
    } else if a.month < b.month {
        lemma_months(a.year, a.month, b.month);
    }
}

/// A date is the one that its day number stands for.
pub proof fn law_date_of_day_number(d: Date)
    requires
        d.valid(),
    ensures
        date_of(d.day_number()) == d,
{
    let e = date_of(d.day_number());
    assert(d.valid() && d.day_number() == d.day_number());
    assert(e.valid() && e.day_number() == d.day_number());
    law_day_number_follows_the_calendar(d, e);
}

/// The day after a date.
proof fn lemma_next(d: Date) -> (e: Date)
    requires
        d.valid(),
    ensures
        e.valid(),
        e.day_number() == d.day_number() + 1,
{
    if d.day < days_in_month(d.year, d.month) {
        Date { year: d.year, month: d.month, day: d.day + 1 }
    } else if d.month < 12 {
        Date { year: d.year, month: d.month + 1, day: 1 }
    } else {
        lemma_year_length(d.year);
        Date { year: d.year + 1, month: 1, day: 1 }
    }
}

/// The day before a date.
proof fn lemma_previous(d: Date) -> (e: Date)
    requires
        d.valid(),
    ensures
        e.valid(),
        e.day_number() == d.day_number() - 1,
{
    if d.day > 1 {
        Date { year: d.year, month: d.month, day: d.day - 1 }
    } else if d.month > 1 {
        Date {
            year: d.year,
            month: d.month - 1,
            day: days_in_month(d.year, d.month - 1),
        }
    } else {
        lemma_year_length(d.year - 1);
        Date { year: d.year - 1, month: 12, day: 31 }
    }
}

/// Every day has a date.
pub proof fn law_every_day_has_a_date(number: int)
    ensures
        date_of(number).valid(),
        date_of(number).day_number() == number,
    decreases
            if number < 0 {
                -number
            } else {
                number
            },
{
    let d = if number == 0 {
        Date { year: 1970, month: 1, day: 1 }
    } else if number > 0 {
        law_every_day_has_a_date(number - 1);
        lemma_next(date_of(number - 1))
    } else {
        law_every_day_has_a_date(number + 1);
        lemma_previous(date_of(number + 1))
    };
    assert(d.valid() && d.day_number() == number);
}

/// The times of the years 0 to 9999 lie within so many seconds of 1970.
pub proof fn lemma_secs_bounds(t: Civil)
    requires
        t.valid(),
    ensures
        -100_000_000_000 < t.secs() < 300_000_000_000,
{
    lemma_within_year(t.date);
    lemma_years(0, t.date.year);
    lemma_years(t.date.year + 1, 10_000);
}

// ---------------------------------------------------------------------------
// The order of texts
// ---------------------------------------------------------------------------

proof fn lemma_padded_len(n: int, width: nat)
    ensures
        padded(n, width).len() == width,
    decreases width,
{
    reveal(padded);
    if width > 0 {
        lemma_padded_len(n / 10, (width - 1) as nat);
    }
}

/// The largest number that `width` digits can hold, and one more.
spec fn limit(width: nat) -> int
    decreases width,
{
    if width == 0 {
        1
    } else {
        10 * limit((width - 1) as nat)
    }
}

/// Numbers of one width are in the order of their texts.
proof fn lemma_padded_order(a: int, b: int, width: nat) -> (i: int)
    requires
        0 <= a < b < limit(width),
    ensures
        text::smaller_at(padded(a, width), padded(b, width), i),
        i < width,
    decreases width,
{
    reveal(padded);
    lemma_padded_len(a, width);
    lemma_padded_len(b, width);
    if width == 0 {
        0
    } else {
        let w = (width - 1) as nat;
        let x = padded(a / 10, w);
        let y = padded(b / 10, w);
        lemma_padded_len(a / 10, w);
        lemma_padded_len(b / 10, w);
        if a / 10 < b / 10 {
            let i = lemma_padded_order(a / 10, b / 10, w);
            assert(padded(a, width)[i] == x[i]);
            assert(padded(b, width)[i] == y[i]);
            assert forall|j: int| 0 <= j < i implies padded(a, width)[j] == padded(
                b,
                width,
            )[j] by {
                assert(padded(a, width)[j] == x[j]);
                assert(padded(b, width)[j] == y[j]);
            }
            i
        } else {
            assert(a / 10 == b / 10);
            assert(a % 10 < b % 10);
            assert(padded(a, width)[w as int] == number::digit(a % 10));
            assert(padded(b, width)[w as int] == number::digit(b % 10));
            w as int
        }
    }
}

/// A difference at `i` decides the order of two texts, whatever follows it.
proof fn lemma_decided(a: Seq<char>, b: Seq<char>, i: int, x: Seq<char>, y: Seq<char>)
    requires
        text::smaller_at(a, b, i),
        i < a.len(),
    ensures
        text::smaller_at(a + x, b + y, i),
{
}

/// Equal beginnings leave the order of two texts to what follows them.
proof fn lemma_deferred(p: Seq<char>, a: Seq<char>, b: Seq<char>, i: int)
    requires
        text::smaller_at(a, b, i),
    ensures
        text::smaller_at(p + a, p + b, p.len() + i),
{
    assert forall|j: int| 0 <= j < p.len() + i implies (p + a)[j] == (p + b)[j] by {
        if j >= p.len() {
            assert((p + a)[j] == a[j - p.len()]);
            assert((p + b)[j] == b[j - p.len()]);
        }
    }
}

/// Of two texts with a field of one width at the same place, the smaller field comes first.
proof fn lemma_field(p: Seq<char>, x: int, y: int, width: nat, s: Seq<char>, t: Seq<char>)
    requires
        0 <= x < y < limit(width),
    ensures
        text::precedes(p + padded(x, width) + s, p + padded(y, width) + t),
{
    let i = lemma_padded_order(x, y, width);
    lemma_padded_len(x, width);
    lemma_deferred(p, padded(x, width), padded(y, width), i);
    lemma_decided(p + padded(x, width), p + padded(y, width), p.len() + i, s, t);
}

impl Civil {
    /// Whether this time comes before `other` on the calendar and the clock.
    pub open spec fn before(self, other: Civil) -> bool {
        ||| self.date.before(other.date)
        ||| self.date == other.date && self.hour < other.hour
        ||| self.date == other.date && self.hour == other.hour && self.minute < other.minute
        ||| self.date == other.date && self.hour == other.hour && self.minute == other.minute
            && self.second < other.second
    }
}

/// Concatenation can be bracketed in any way.
proof fn lemma_regroup(a: Seq<char>, b: Seq<char>, c: Seq<char>)
    ensures
        (a + b) + c == a + (b + c),
{
    assert((a + b) + c =~= a + (b + c));
}

/// An earlier date has the smaller text, whatever follows it.
proof fn lemma_date_order(a: Date, b: Date, s: Seq<char>, t: Seq<char>)
    requires
        a.valid(),
        b.valid(),
        0 <= a.year <= 9999,
        0 <= b.year <= 9999,
        a.before(b),
    ensures
        text::precedes(a.text() + s, b.text() + t),
{
    reveal_with_fuel(limit, 5);
    let dash = seq!['-'];
    let month_a = padded(a.month, 2) + dash + padded(a.day, 2);
    let month_b = padded(b.month, 2) + dash + padded(b.day, 2);
    if a.year < b.year {
        let none = Seq::<char>::empty();
        assert(a.text() + s =~= none + padded(a.year, 4) + (dash + month_a + s));
        assert(b.text() + t =~= none + padded(b.year, 4) + (dash + month_b + t));
        lemma_field(none, a.year, b.year, 4, dash + month_a + s, dash + month_b + t);
    } else if a.month < b.month {
        let p = padded(a.year, 4) + dash;
        let day_a = dash + padded(a.day, 2);
        let day_b = dash + padded(b.day, 2);
        assert(a.text() + s =~= p + padded(a.month, 2) + (day_a + s));
        assert(b.text() + t =~= p + padded(b.month, 2) + (day_b + t));
        lemma_field(p, a.month, b.month, 2, day_a + s, day_b + t);
    } else {
        let p = padded(a.year, 4) + dash + padded(a.month, 2) + dash;
        lemma_field(p, a.day, b.day, 2, s, t);
    }
}

impl Civil {
    /// The time of day in the form `T21:00:00Z`.
    spec fn clock(self) -> Seq<char> {
        seq!['T'] + padded(self.hour, 2) + seq![':'] + padded(self.minute, 2) + seq![':'] + padded(
            self.second,
            2,
        ) + seq!['Z']
    }
}

/// An earlier time of day has the smaller text.
proof fn lemma_clock_order(a: Civil, b: Civil)
    requires
        a.valid(),
        b.valid(),
        a.date == b.date,
        a.before(b),
    ensures
        text::precedes(a.clock(), b.clock()),
{
    reveal_with_fuel(limit, 3);
    let colon = seq![':'];
    let zone = seq!['Z'];
    if a.hour < b.hour {
        let p = seq!['T'];
        let s = colon + padded(a.minute, 2) + colon + padded(a.second, 2) + zone;
        let t = colon + padded(b.minute, 2) + colon + padded(b.second, 2) + zone;
        assert(a.clock() =~= p + padded(a.hour, 2) + s);
        assert(b.clock() =~= p + padded(b.hour, 2) + t);
        lemma_field(p, a.hour, b.hour, 2, s, t);
    } else if a.minute < b.minute {
        let p = seq!['T'] + padded(a.hour, 2) + colon;
        let s = colon + padded(a.second, 2) + zone;
        let t = colon + padded(b.second, 2) + zone;
        assert(a.clock() =~= p + padded(a.minute, 2) + s);
        assert(b.clock() =~= p + padded(b.minute, 2) + t);
        lemma_field(p, a.minute, b.minute, 2, s, t);
    } else {
        let p = seq!['T'] + padded(a.hour, 2) + colon + padded(a.minute, 2) + colon;
        lemma_field(p, a.second, b.second, 2, zone, zone);
    }
}

/// A time in text is its date and its time of day.
proof fn lemma_date_and_clock(t: Civil)
    ensures
        t.text() == t.date.text() + t.clock(),
{
    let d = t.date.text();
    let h = padded(t.hour, 2);
    let m = padded(t.minute, 2);
    let s = padded(t.second, 2);
    let colon = seq![':'];
    let hm = seq!['T'] + h + colon + m;
    lemma_regroup(d, seq!['T'], h);
    lemma_regroup(d, seq!['T'] + h, colon);
    lemma_regroup(d, seq!['T'] + h + colon, m);
    lemma_regroup(d, hm, colon);
    lemma_regroup(d, hm + colon, s);
    lemma_regroup(d, hm + colon + s, seq!['Z']);
}

/// An earlier time has the smaller text.
proof fn lemma_text_order(a: Civil, b: Civil)
    requires
        a.valid(),
        b.valid(),
        a.before(b),
    ensures
        text::precedes(a.text(), b.text()),
{
    lemma_date_and_clock(a);
    lemma_date_and_clock(b);
    if a.date.before(b.date) {
        lemma_date_order(a.date, b.date, a.clock(), b.clock());
    } else {
        lemma_clock_order(a, b);
        let i = choose|i: int| text::smaller_at(a.clock(), b.clock(), i);
        lemma_deferred(a.date.text(), a.clock(), b.clock(), i);
    }
}

/// The texts of two times are in the order of the times: of ISO 8601 times in UTC, the
/// lexicographic order is the chronological one.
pub proof fn law_text_order_is_chronological(a: Civil, b: Civil)
    requires
        a.valid(),
        b.valid(),
    ensures
        text::precedes(a.text(), b.text()) <==> a.secs() < b.secs(),
        a.text() == b.text() <==> a.secs() == b.secs(),
{
    law_day_number_follows_the_calendar(a.date, b.date);
    text::lemma_precedes_total(a.text(), b.text());
    if a.before(b) {
        lemma_text_order(a, b);
    } else if b.before(a) {
        lemma_text_order(b, a);
    } else {
        assert(a == b);
    }
}

/// A date of a year with four digits is written with the year, the month and the day in this
/// order, each with leading zeros and with dashes between them.
pub proof fn law_dates_are_written_in_full(d: Date)
    requires
        d.valid(),
        0 <= d.year <= 9999,
    ensures
        d.text().len() == 10,
        number::is_number(d.text().take(4)) && number::value(d.text().take(4)) == d.year,
        d.text()[4] == '-',
        number::is_number(d.text().subrange(5, 7)) && number::value(d.text().subrange(5, 7))
            == d.month,
        d.text()[7] == '-',
        number::is_number(d.text().skip(8)) && number::value(d.text().skip(8)) == d.day,
{
    reveal_with_fuel(limit, 5);
    lemma_padded_value(d.year, 4);
    lemma_padded_value(d.month, 2);
    lemma_padded_value(d.day, 2);
    let year = padded(d.year, 4);
    let month = padded(d.month, 2);
    let day = padded(d.day, 2);
    assert(d.text().take(4) =~= year);
    assert(d.text().subrange(5, 7) =~= month);
    assert(d.text().skip(8) =~= day);
}

/// What is written with leading zeros is a number, and that which was meant.
proof fn lemma_padded_value(n: int, width: nat)
    requires
        0 <= n < limit(width),
    ensures
        padded(n, width).len() == width,
        width > 0 ==> number::is_number(padded(n, width)),
        number::value(padded(n, width)) == n,
    decreases width,
{
    reveal(padded);
    if width > 0 {
        let w = (width - 1) as nat;
        let front = padded(n / 10, w);
        let last = number::digit(n % 10);
        lemma_padded_value(n / 10, w);
        assert(number::is_digit(last) && last as int - '0' as int == n % 10);
        number::law_digits_have_their_place(front, last);
        assert forall|i: int| 0 <= i < width implies number::is_digit(
            #[trigger] padded(n, width)[i],
        ) by {
            if i < w {
                assert(number::is_digit(front[i]));
            }
        }
    }
}

} // verus!
