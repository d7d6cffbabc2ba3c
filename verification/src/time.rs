//! Instants in time.

use vstd::prelude::*;

use crate::text;

verus! {

/// The first second, counted from the Unix epoch, that an instant can lie in.
pub const MIN_SECOND: i64 = -377_705_023_201;

/// The last second, counted from the Unix epoch, that an instant can lie in.
pub const MAX_SECOND: i64 = 253_402_207_200;

pub const NANOS_PER_SECOND: i128 = 1_000_000_000;

/// The first instant, in nanoseconds from the Unix epoch.
pub const MIN_NANOSECOND: i128 = -377_705_023_201_000_000_000;

/// The last instant, in nanoseconds from the Unix epoch.
pub const MAX_NANOSECOND: i128 = 253_402_207_200_999_999_999;

/// The whole seconds between the Unix epoch and an instant given in nanoseconds: the
/// fraction of a second is cut off, on either side of the epoch.
pub open spec fn whole_second(nanosecond: int) -> int {
    if nanosecond >= 0 {
        nanosecond / (NANOS_PER_SECOND as int)
    } else {
        -((-nanosecond) / (NANOS_PER_SECOND as int))
    }
}

pub open spec fn is_leap_year(year: int) -> bool {
    year % 4 == 0 && (year % 100 != 0 || year % 400 == 0)
}

pub open spec fn days_in_month(year: int, month: int) -> int {
    if month == 2 {
        if is_leap_year(year) {
            29
        } else {
            28
        }
    } else if month == 4 || month == 6 || month == 9 || month == 11 {
        30
    } else {
        31
    }
}

/// The days of a year that lie before one of its months.
pub open spec fn days_before_month(year: int, month: int) -> int
    decreases month,
{
    if month <= 1 {
        0
    } else {
        days_before_month(year, month - 1) + days_in_month(year, month - 1)
    }
}

/// The number of a day of the Gregorian calendar, counted from 1970-01-01 as zero.
pub open spec fn day_number(year: int, month: int, day: int) -> int {
    let past = year - 1;
    365 * past + past / 4 - past / 100 + past / 400 + days_before_month(year, month) + day
        - 719_163
}

pub open spec fn is_date(year: int, month: int, day: int) -> bool {
    1 <= month <= 12 && 1 <= day <= days_in_month(year, month)
}

/// A number below one hundred in two decimal digits.
pub open spec fn two_digits(n: int) -> Seq<char> {
    seq![('0' as int + n / 10) as char, ('0' as int + n % 10) as char]
}

/// A year in four decimal digits; one before the year zero in six, with a minus sign.
pub open spec fn year_text(year: int) -> Seq<char> {
    if year < 0 {
        seq!['-', '0', '0'] + two_digits((-year) / 100) + two_digits((-year) % 100)
    } else {
        two_digits(year / 100) + two_digits(year % 100)
    }
}

pub open spec fn date_text(year: int, month: int, day: int) -> Seq<char> {
    year_text(year) + seq!['-'] + two_digits(month) + seq!['-'] + two_digits(day)
}

pub open spec fn time_of_day_text(second_of_day: int) -> Seq<char> {
    two_digits(second_of_day / 3600) + seq![':'] + two_digits(second_of_day / 60 % 60) + seq![':']
        + two_digits(second_of_day % 60)
}

/// Whether `text` is the second `second`, counted from the Unix epoch, in UTC after
/// RFC 3339: the date, `T`, the time of day and `Z`.
pub open spec fn is_rfc3339(text: Seq<char>, second: int) -> bool {
    exists|year: int, month: int, day: int|
        is_date(year, month, day) && #[trigger] day_number(year, month, day) == second / 86_400
            && text == date_text(year, month, day) + seq!['T'] + time_of_day_text(second % 86_400)
            + seq!['Z']
}

/// The number of days of a year.
spec fn days_in_year(year: int) -> int {
    if is_leap_year(year) {
        366
    } else {
        365
    }
}

/// A month ends no later than a later one begins.
proof fn lemma_months_in_order(year: int, month: int, later: int)
    requires
        1 <= month < later <= 13,
    ensures
        days_before_month(year, month) + days_in_month(year, month) <= days_before_month(year, later),
    decreases later - month,
{
    if month + 1 < later {
        lemma_months_in_order(year, month, later - 1);
    }
}

/// The months of a year fill it.
proof fn lemma_months_fill_the_year(year: int)
    ensures
        days_before_month(year, 13) == days_in_year(year),
{
    reveal_with_fuel(days_before_month, 13);
}

/// The first day of a later year comes after the last day of a year.
proof fn lemma_years_in_order(year: int, later: int)
    requires
        year < later,
    ensures
        day_number(year, 1, 1) + days_in_year(year) <= day_number(later, 1, 1),
    decreases later - year,
{
    if year + 1 < later {
        lemma_years_in_order(year, later - 1);
    }
    let last = later - 1;
    assert(day_number(later, 1, 1) == day_number(last, 1, 1) + days_in_year(last));
}

/// The days of the calendar are numbered in order.
proof fn lemma_days_in_order(
    year: int,
    month: int,
    day: int,
    later_year: int,
    later_month: int,
    later_day: int,
)
    requires
        is_date(year, month, day),
        is_date(later_year, later_month, later_day),
        year < later_year || year == later_year && (month < later_month || month == later_month
            && day < later_day),
    ensures
        day_number(year, month, day) < day_number(later_year, later_month, later_day),
{
    if year < later_year {
        lemma_years_in_order(year, later_year);
        lemma_months_fill_the_year(year);
        lemma_months_in_order(year, month, 13);
        if later_month > 1 {
            lemma_months_in_order(later_year, 1, later_month);
        }
    } else if month < later_month {
        lemma_months_in_order(year, month, later_month);
    }
}

/// A second has one text after RFC 3339.
pub proof fn law_one_text_per_second(a: Seq<char>, b: Seq<char>, second: int)
    requires
        is_rfc3339(a, second),
        is_rfc3339(b, second),
    ensures
        a == b,
{
    let number = second / 86_400;
    let (y1, m1, d1) = choose|y: int, m: int, d: int|
        is_date(y, m, d) && #[trigger] day_number(y, m, d) == number && a == date_text(y, m, d)
            + seq!['T'] + time_of_day_text(second % 86_400) + seq!['Z'];
    let (y2, m2, d2) = choose|y: int, m: int, d: int|
        is_date(y, m, d) && #[trigger] day_number(y, m, d) == number && b == date_text(y, m, d)
            + seq!['T'] + time_of_day_text(second % 86_400) + seq!['Z'];
    if y1 != y2 || m1 != m2 || d1 != d2 {
        if y1 < y2 || y1 == y2 && (m1 < m2 || m1 == m2 && d1 < d2) {
            lemma_days_in_order(y1, m1, d1, y2, m2, d2);
        } else {
            lemma_days_in_order(y2, m2, d2, y1, m1, d1);
        }
    }
}

/// `jiff::Timestamp::from_second`: it accepts the seconds from `MIN_SECOND` to
/// `MAX_SECOND`, and gives the instant that lies that many seconds from the Unix epoch,
/// here in nanoseconds.
#[verifier::external_body]
fn nanosecond_of_second(second: i64) -> (r: Option<i128>)
    ensures
        r == if MIN_SECOND <= second <= MAX_SECOND {
            Some((second * NANOS_PER_SECOND) as i128)
        } else {
            None
        },
{
    match jiff::Timestamp::from_second(second) {
        Ok(timestamp) => Some(timestamp.as_nanosecond()),
        Err(_) => None,
    }
}

/// `jiff::Timestamp`'s `Display`, on an instant that lies on a whole second: it writes
/// the instant in UTC after RFC 3339, without a fraction of a second.
#[verifier::external_body]
fn display_second(second: i64) -> (r: String)
    requires
        MIN_SECOND <= second <= MAX_SECOND,
    ensures
        is_rfc3339(r@, second as int),
{
    jiff::Timestamp::from_second(second).unwrap().to_string()
}

/// An instant, to the nanosecond. Its view is the number of nanoseconds since the Unix
/// epoch, negative before it.
#[derive(Debug, Clone, Copy, PartialEq, Eq)]
pub struct Timestamp {
    nanosecond: i128,
}

impl View for Timestamp {
    type V = int;

    closed spec fn view(&self) -> int {
        self.nanosecond as int
    }
}

impl Timestamp {
    #[verifier::type_invariant]
    closed spec fn in_range(self) -> bool {
        MIN_NANOSECOND <= self.nanosecond <= MAX_NANOSECOND
    }

    /// The instant `nanosecond` nanoseconds from the Unix epoch, if it is in range.
    pub fn from_nanosecond(nanosecond: i128) -> (r: Option<Timestamp>)
        ensures
            r is Some <==> MIN_NANOSECOND <= nanosecond <= MAX_NANOSECOND,
            r is Some ==> r->0@ == nanosecond,
    {
        if MIN_NANOSECOND <= nanosecond && nanosecond <= MAX_NANOSECOND {
            Some(Timestamp { nanosecond })
        } else {
            None
        }
    }

    /// The instant `second` seconds from the Unix epoch, if it is in range.
    pub fn from_second(second: i64) -> (r: Option<Timestamp>)
        ensures
            r is Some <==> MIN_SECOND <= second <= MAX_SECOND,
            r is Some ==> r->0@ == second * NANOS_PER_SECOND,
    {
        match nanosecond_of_second(second) {
            Some(nanosecond) => Some(Timestamp { nanosecond }),
            None => None,
        }
    }

    pub fn as_nanosecond(self) -> (r: i128)
        ensures
            r == self@,
            MIN_NANOSECOND <= r <= MAX_NANOSECOND,
    {
        proof {
            use_type_invariant(&self);
        }
        self.nanosecond
    }

    /// The whole seconds since the Unix epoch; a fraction is cut off.
    pub fn as_second(self) -> (r: i64)
        ensures
            r == whole_second(self@),
            MIN_SECOND <= r <= MAX_SECOND,
    {
        let n = self.as_nanosecond();
        if n >= 0 {
            (n / NANOS_PER_SECOND) as i64
        } else {
            -(((-n) / NANOS_PER_SECOND) as i64)
        }
    }

    /// The last whole second at or before the instant.
    pub fn floor_second(self) -> (r: i64)
        ensures
            r == self@ / (NANOS_PER_SECOND as int),
            MIN_SECOND <= r <= MAX_SECOND,
    {
        let n = self.as_nanosecond();
        if n >= 0 {
            (n / NANOS_PER_SECOND) as i64
        } else {
            -(((-n - 1) / NANOS_PER_SECOND) as i64) - 1
        }
    }

    /// The nanoseconds that have passed at `self` since `earlier`; negative where
    /// `earlier` is the later of the two.
    pub fn nanoseconds_since(self, earlier: Timestamp) -> (r: i128)
        ensures
            r == self@ - earlier@,
    {
        self.as_nanosecond() - earlier.as_nanosecond()
    }

    /// The instant in UTC after RFC 3339, cut off to whole seconds.
    pub fn to_second_text(self) -> (r: String)
        ensures
            is_rfc3339(r@, whole_second(self@)),
    {
        display_second(self.as_second())
    }
}

/// An instant is made of exactly the nanoseconds in range, and gives them back.
pub proof fn law_nanoseconds_are_given_back(nanosecond: i128, r: Option<Timestamp>, back: i128)
    requires
        call_ensures(Timestamp::from_nanosecond, (nanosecond,), r),
        r matches Some(t) ==> call_ensures(Timestamp::as_nanosecond, (t,), back),
    ensures
        r is Some <==> -377_705_023_201_000_000_000 <= nanosecond <= 253_402_207_200_999_999_999,
        r is Some ==> back == nanosecond,
{
}

/// An instant is made of exactly the seconds in range, and lies on the whole second.
pub proof fn law_seconds_are_given_back(
    second: i64,
    r: Option<Timestamp>,
    nanosecond: i128,
    back: i64,
    floor: i64,
)
    requires
        call_ensures(Timestamp::from_second, (second,), r),
        r matches Some(t) ==> call_ensures(Timestamp::as_nanosecond, (t,), nanosecond)
            && call_ensures(Timestamp::as_second, (t,), back) && call_ensures(
            Timestamp::floor_second,
            (t,),
            floor,
        ),
    ensures
        r is Some <==> -377_705_023_201 <= second <= 253_402_207_200,
        r is Some ==> nanosecond == second * 1_000_000_000 && back == second && floor == second,
{
}

/// The whole seconds of an instant leave less than a second over, away from the epoch; the
/// last whole second at or before it leaves less than a second over, towards the future.
pub proof fn law_less_than_a_second_is_cut_off(
    t: Timestamp,
    nanosecond: i128,
    second: i64,
    floor: i64,
)
    requires
        call_ensures(Timestamp::as_nanosecond, (t,), nanosecond),
        call_ensures(Timestamp::as_second, (t,), second),
        call_ensures(Timestamp::floor_second, (t,), floor),
    ensures
        nanosecond >= 0 ==> 0 <= nanosecond - second * 1_000_000_000 < 1_000_000_000,
        nanosecond <= 0 ==> -1_000_000_000 < nanosecond - second * 1_000_000_000 <= 0,
        0 <= nanosecond - floor * 1_000_000_000 < 1_000_000_000,
{
}

/// The time between two instants is the difference of their nanoseconds.
pub proof fn law_time_between(a: Timestamp, b: Timestamp, na: i128, nb: i128, r: i128)
    requires
        call_ensures(Timestamp::as_nanosecond, (a,), na),
        call_ensures(Timestamp::as_nanosecond, (b,), nb),
        call_ensures(Timestamp::nanoseconds_since, (a, b), r),
    ensures
        r == na - nb,
{
}

/// The calendar: day zero is the first of 1970; a month is as long as months are; a year
/// has a leap day every four years, but in those of the hundreds only every four hundred.
pub proof fn law_calendar(year: int, month: int, day: int)
    requires
        1 <= month <= 12,
    ensures
        day_number(1970, 1, 1) == 0,
        day_number(year, month, day + 1) == day_number(year, month, day) + 1,
        ({
            let leap = year % 4 == 0 && (year % 100 != 0 || year % 400 == 0);
            let length = if month == 2 && leap {
                29
            } else {
                seq![31int, 28, 31, 30, 31, 30, 31, 31, 30, 31, 30, 31][month - 1]
            };
            &&& is_date(year, month, day) <==> 1 <= day <= length
            &&& month < 12 ==> day_number(year, month + 1, 1) == day_number(year, month, 1)
                + length
            &&& month == 12 ==> day_number(year + 1, 1, 1) == day_number(year, month, 1) + length
        }),
{
    if month == 12 {
        reveal_with_fuel(days_before_month, 13);
        assert(day_number(year + 1, 1, 1) == day_number(year, 1, 1) + days_in_year(year));
    }
}

/// A month outside the year is no date.
pub proof fn law_twelve_months(year: int, month: int, day: int)
    ensures
        is_date(year, month, day) ==> 1 <= month <= 12,
{
}

/// A number below one hundred is written in its two digits.
proof fn lemma_two_digits(n: int)
    requires
        0 <= n < 100,
    ensures
        two_digits(n).len() == 2,
        text::digits_value(two_digits(n)) == n,
        forall|i: int| 0 <= i < 2 ==> 48 <= #[trigger] two_digits(n)[i] as int <= 57,
{
    let s = two_digits(n);
    assert(s.drop_last() == seq![s[0]]);
    assert(s.drop_last().drop_last() == Seq::<char>::empty());
    reveal_with_fuel(text::digits_value, 3);
}

/// A year in range is written in its four digits.
proof fn lemma_four_digits(n: int)
    requires
        0 <= n < 10_000,
    ensures
        (two_digits(n / 100) + two_digits(n % 100)).len() == 4,
        text::digits_value(two_digits(n / 100) + two_digits(n % 100)) == n,
{
    lemma_two_digits(n / 100);
    lemma_two_digits(n % 100);
    text::law_digits_count_by_place(two_digits(n / 100), two_digits(n % 100), '0');
    assert(vstd::arithmetic::power::pow(10, 2) == 100) by {
        reveal(vstd::arithmetic::power::pow);
        reveal_with_fuel(vstd::arithmetic::power::pow, 3);
    }
}

/// The text of a second can be read back: the year, in four digits, or in six behind a
/// minus sign, the month and the day in two digits each make a date of the calendar, and
/// the hours, minutes and seconds, in two digits each, the time of that day.
pub proof fn law_text_reads_back(text: Seq<char>, second: int)
    requires
        is_rfc3339(text, second),
        -377_705_023_201 <= second <= 253_402_207_200,
    ensures
        ({
            let n = text.len() as int;
            let number = |from: int, to: int| text::digits_value(text.subrange(from, to));
            let hours = number(n - 9, n - 7) as int;
            let minutes = number(n - 6, n - 4) as int;
            let seconds = number(n - 3, n - 1) as int;
            let month = number(n - 15, n - 13) as int;
            let day = number(n - 12, n - 10) as int;
            let year = if n == 20 {
                number(0, 4) as int
            } else {
                -(number(1, 7) as int)
            };
            &&& n == 20 || n == 23 && text[0] == '-' && year < 0
            &&& text[n - 1] == 'Z' && text[n - 10] == 'T' && text[n - 4] == ':' && text[n - 7]
                == ':' && text[n - 13] == '-' && text[n - 16] == '-'
            &&& 0 <= hours < 24 && 0 <= minutes < 60 && 0 <= seconds < 60
            &&& is_date(year, month, day)
            &&& second == day_number(year, month, day) * 86_400 + hours * 3600 + minutes * 60
                + seconds
        }),
{
    let number = second / 86_400;
    let rest = second % 86_400;
    let (year, month, day) = choose|y: int, m: int, d: int|
        is_date(y, m, d) && #[trigger] day_number(y, m, d) == number && text == date_text(y, m, d)
            + seq!['T'] + time_of_day_text(rest) + seq!['Z'];
    if year > 9999 {
        if year > 10_000 {
            lemma_years_in_order(10_000, year);
        }
        assert(day_number(10_000, 1, 1) == 2_932_897);
        if month > 1 {
            lemma_months_in_order(year, 1, month);
        }
        assert(false);
    }
    if year < -9999 {
        lemma_years_in_order(year, -9999);
        lemma_months_fill_the_year(year);
        lemma_months_in_order(year, month, 13);
        assert(day_number(-9999, 1, 1) == -4_371_587);
        assert(false);
    }
    let h = rest / 3600;
    let m = rest / 60 % 60;
    let s = rest % 60;
    lemma_two_digits(h);
    lemma_two_digits(m);
    lemma_two_digits(s);
    lemma_two_digits(month);
    lemma_two_digits(day);
    let n = text.len() as int;
    let ahead = year_text(year);
    if year >= 0 {
        lemma_four_digits(year);
        assert(text.subrange(0, 4) == ahead);
    } else {
        let four = two_digits((-year) / 100) + two_digits((-year) % 100);
        lemma_four_digits(-year);
        assert(text.subrange(1, 7) == seq!['0', '0'] + four);
        assert forall|i: int| 0 <= i < four.len() implies 48 <= #[trigger] four[i] as int <= 57 by {
            lemma_two_digits((-year) / 100);
            lemma_two_digits((-year) % 100);
            if i < 2 {
                assert(four[i] == two_digits((-year) / 100)[i]);
            } else {
                assert(four[i] == two_digits((-year) % 100)[i - 2]);
            }
        }
        text::law_digits_count_by_place(seq!['0', '0'], four, '0');
        assert(text::digits_value(seq!['0', '0']) == 0) by {
            assert(seq!['0', '0'].drop_last() == seq!['0']);
            assert(seq!['0'].drop_last() == Seq::<char>::empty());
            reveal_with_fuel(text::digits_value, 3);
        }
        assert(0 * vstd::arithmetic::power::pow(10, four.len()) == 0);
        assert(text::digits_value(text.subrange(1, 7)) == -year);
    }
    assert(rest == h * 3600 + m * 60 + s);
    assert(text.subrange(n - 9, n - 7) == two_digits(h));
    assert(text.subrange(n - 6, n - 4) == two_digits(m));
    assert(text.subrange(n - 3, n - 1) == two_digits(s));
    assert(text.subrange(n - 15, n - 13) == two_digits(month));
    assert(text.subrange(n - 12, n - 10) == two_digits(day));
}

/// The text of an instant is that of its whole second: instants of the same second have
/// the same text.
pub proof fn law_text_is_of_the_whole_second(
    t: Timestamp,
    text: String,
    second: i64,
    other: Timestamp,
    other_text: String,
)
    requires
        call_ensures(Timestamp::to_second_text, (t,), text),
        call_ensures(Timestamp::as_second, (t,), second),
        call_ensures(Timestamp::to_second_text, (other,), other_text),
        call_ensures(Timestamp::as_second, (other,), second),
    ensures
        is_rfc3339(text@, second as int),
        text@ == other_text@,
{
    law_one_text_per_second(text@, other_text@, second as int);
}

} // verus!
