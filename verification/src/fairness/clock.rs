//! Points in time as calendar dates.

use crate::text::{
    decimal, decimal_of, decimal_reads_back, decimal_value, digit_char, is_digit, joined7, text_le,
};
use vstd::prelude::*;
use vstd::string::*;

verus! {

/// A leap year: every fourth, but of the hundreds only every fourth.
pub open spec fn is_leap(year: int) -> bool {
    year % 4 == 0 && (year % 100 != 0 || year % 400 == 0)
}

/// How many days a year has.
pub open spec fn year_length(year: int) -> int {
    if is_leap(year) {
        366
    } else {
        365
    }
}

/// How many days a month has.
pub open spec fn month_length(year: int, month: int) -> int {
    if month == 2 {
        if is_leap(year) {
            29
        } else {
            28
        }
    } else if month == 4 || month == 6 || month == 9 || month == 11 {
        30
    } else {
        31
    }
}

/// A calendar date.
pub struct Date {
    pub year: int,
    pub month: int,
    pub day: int,
}

/// The date that lies `days` days after the first of the month.
pub open spec fn date_in_year(year: int, month: int, days: int) -> Date
    decreases 12 - month,
{
    if month >= 12 || days < month_length(year, month) {
        Date { year, month, day: days + 1 }
    } else {
        date_in_year(year, month + 1, days - month_length(year, month))
    }
}

/// The date that lies `days` days after the first day of the year.
pub open spec fn date_from(year: int, days: int) -> Date
    decreases days,
{
    if days < year_length(year) {
        date_in_year(year, 1, days)
    } else {
        date_from(year + 1, days - year_length(year))
    }
}

/// The date that lies `days` days after the first of January 1970.
pub open spec fn date_of(days: int) -> Date {
    date_from(1970, days)
}

/// A number in at least `width` digits, with zeros before it.
pub open spec fn padded(n: nat, width: nat) -> Seq<char> {
    if decimal(n).len() >= width {
        decimal(n)
    } else {
        Seq::new((width - decimal(n).len()) as nat, |i: int| '0') + decimal(n)
    }
}

/// A moment as ISO 8601 writes it in UTC, `secs` seconds after the first moment
/// of 1970.
pub open spec fn utc_text(secs: nat) -> Seq<char> {
    let date = date_of((secs / 86_400) as int);
    let time = secs % 86_400;
    padded(date.year as nat, 4) + "-"@ + padded(date.month as nat, 2) + "-"@ + padded(
        date.day as nat,
        2,
    ) + "T"@ + padded(time / 3600, 2) + ":"@ + padded((time % 3600) / 60, 2) + ":"@ + padded(
        time % 60,
        2,
    ) + "Z"@
}

/// How many leap years there are up to `year`.
spec fn leaps(year: int) -> int {
    year / 4 - year / 100 + year / 400
}

/// How many days lie before the first of March of `year`, from that of year 0.
spec fn days_before_march(year: int) -> int {
    365 * year + leaps(year)
}

/// How many days lie before the month that is `m` months after March.
spec fn days_after_march(m: int) -> int {
    (153 * m + 2) / 5
}

proof fn leap_step(year: int)
    requires
        year >= 0,
    ensures
        leaps(year + 1) - leaps(year) == if is_leap(year + 1) {
            1int
        } else {
            0int
        },
{
}

/// Counting on from a year that lies `days` before the date finds the date: it
/// is enough that the rest fits in the year that is reached.
proof fn date_from_reaches(year: int, target: int, rest: int)
    requires
        0 <= year <= target,
        0 <= rest < year_length(target),
    ensures
        date_from(
            year,
            365 * (target - year) + leaps(target - 1) - leaps(year - 1) + rest,
        ) == date_in_year(target, 1, rest),
    decreases target - year,
{
    let days = 365 * (target - year) + leaps(target - 1) - leaps(year - 1) + rest;
    if year < target {
        leap_at(year);
        leaps_grow(year, target - 1);
        assert(days >= year_length(year));
        date_from_reaches(year + 1, target, rest);
    }
}

proof fn leap_at(year: int)
    requires
        year >= 0,
    ensures
        leaps(year) - leaps(year - 1) == if is_leap(year) {
            1int
        } else {
            0int
        },
{
}

proof fn leaps_grow(from: int, to: int)
    requires
        0 <= from <= to,
    ensures
        leaps(from) <= leaps(to),
    decreases to - from,
{
    if from < to {
        leap_step(from);
        leaps_grow(from + 1, to);
    }
}

/// The year within a century and the day within it, found from the day within
/// the century; `b` is the century within its era.
#[verifier::spinoff_prover]
#[verifier::rlimit(60)]
proof fn year_of_century(b: int, r: int, s: int, y: int)
    requires
        0 <= b <= 3,
        0 <= r < 36_524,
        s == (24 * b + r) / 1460,
        y == (r - s) / 365,
    ensures
        0 <= y < 100,
        0 <= r - 365 * y - y / 4 <= 365,
        r - 365 * y - y / 4 == 365 ==> (y + 1) % 4 == 0 && (y < 99 || b == 3),
{
    let w = y / 4;
    assert(1460 * s <= 24 * b + r < 1460 * s + 1460);
    assert(365 * y <= r - s < 365 * y + 365);
    assert(4 * w <= y < 4 * w + 4);
    assert(0 <= s <= 25);
    assert(w <= s <= w + 1);
    if s == w + 1 {
        assert(y == 4 * w + 3);
    }
}

/// The year within an era of four hundred years, and the day within it, found
/// from the day within the era.
#[verifier::spinoff_prover]
proof fn year_of_era(doe: int, yoe: int, doy: int)
    requires
        0 <= doe < 146_097,
        yoe == (doe - doe / 1460 + doe / 36_524 - doe / 146_096) / 365,
        doy == doe - (365 * yoe + yoe / 4 - yoe / 100),
    ensures
        0 <= yoe < 400,
        0 <= doy < 366,
        doy == 365 ==> is_leap(yoe + 1),
{
    if doe == 146_096 {
        assert(yoe == 399);
    } else {
        let b = doe / 36_524;
        let r = doe - 36_524 * b;
        let s = (24 * b + r) / 1460;
        let y = (r - s) / 365;
        assert(0 <= b <= 3 && 0 <= r < 36_524);
        assert(doe / 146_096 == 0);
        assert(doe / 1460 == 25 * b + s);
        year_of_century(b, r, s, y);
        assert(doe - doe / 1460 + b == 36_500 * b + r - s);
        assert(yoe == 100 * b + y);
        assert(yoe / 4 == 25 * b + y / 4);
        assert(yoe / 100 == b);
    }
}

/// The month and the day within a year that begins in March.
proof fn month_of_year(doy: int, mp: int)
    requires
        0 <= doy < 366,
        mp == (5 * doy + 2) / 153,
    ensures
        0 <= mp < 12,
        days_after_march(mp) <= doy,
        mp < 11 ==> doy < days_after_march(mp + 1),
{
}

/// From March on the date is the one that is counted off from the first of
/// January.
proof fn date_from_march(year: int, doy: int, mp: int)
    requires
        0 <= doy < 306,
        mp == (5 * doy + 2) / 153,
    ensures
        mp < 10,
        date_in_year(year, 1, doy + 59 + year_length(year) - 365) == (Date {
            year,
            month: mp + 3,
            day: doy - days_after_march(mp) + 1,
        }),
{
    month_of_year(doy, mp);
    reveal_with_fuel(date_in_year, 13);
}

/// In January and February it is so as well.
proof fn date_from_january(year: int, doy: int, mp: int)
    requires
        306 <= doy < 366,
        doy == 365 ==> is_leap(year),
        mp == (5 * doy + 2) / 153,
    ensures
        10 <= mp < 12,
        date_in_year(year, 1, doy - 306) == (Date {
            year,
            month: mp - 9,
            day: doy - days_after_march(mp) + 1,
        }),
        0 <= doy - 306 < year_length(year),
{
    month_of_year(doy, mp);
    reveal_with_fuel(date_in_year, 13);
}

/// The days before a year that begins in March, by eras of four hundred years.
proof fn era_adds_up(era: int, yoe: int)
    requires
        0 <= era,
        0 <= yoe < 400,
    ensures
        days_before_march(400 * era + yoe) == 146_097 * era + 365 * yoe + yoe / 4 - yoe / 100,
{
    let year = 400 * era + yoe;
    assert(year / 4 == 100 * era + yoe / 4);
    assert(year / 100 == 4 * era + yoe / 100);
    assert(year / 400 == era);
}

/// A leap year is one in any era.
proof fn leap_in_every_era(era: int, yoe: int)
    requires
        0 <= era,
        0 <= yoe,
    ensures
        is_leap(400 * era + yoe) == is_leap(yoe),
{
    let year = 400 * era + yoe;
    assert(year % 4 == yoe % 4);
    assert(year % 100 == yoe % 100);
    assert(year % 400 == yoe % 400);
}

/// A number in at least `width` digits.
fn pad(n: u64, width: usize) -> (r: String)
    ensures
        r@ == padded(n as nat, width as nat),
{
    let digits = decimal_of(n);
    let count: usize = digits.as_str().unicode_len();
    if count >= width {
        return digits;
    }
    let mut out = String::new();
    let missing: usize = width - count;
    let mut i: usize = 0;
    while i < missing
        invariant
            i <= missing,
            out@ =~= Seq::new(i as nat, |k: int| '0'),
        decreases missing - i,
    {
        out.push('0');
        i += 1;
    }
    out.append(&digits);
    out
}

/// The date that lies `days` days after the first of January 1970: its year,
/// month and day. The year is shifted to begin in March, so that the leap day
/// comes last.
fn civil_date(days: u64) -> (r: (u64, u64, u64))
    requires
        days <= u64::MAX / 86_400,
    ensures
        date_of(days as int) == (Date { year: r.0 as int, month: r.1 as int, day: r.2 as int }),
{
    let z: u64 = days + 719_468;
    let era: u64 = z / 146_097;
    let doe: u64 = z % 146_097;
    let yoe: u64 = (doe - doe / 1460 + doe / 36_524 - doe / 146_096) / 365;
    proof {
        year_of_era(
            doe as int,
            yoe as int,
            doe - (365 * yoe + yoe as int / 4 - yoe as int / 100),
        );
    }
    let doy: u64 = doe - (365 * yoe + yoe / 4 - yoe / 100);
    proof {
        month_of_year(doy as int, (5 * doy as int + 2) / 153);
    }
    let mp: u64 = (5 * doy + 2) / 153;
    let d: u64 = doy - (153 * mp + 2) / 5 + 1;
    let m: u64 = if mp < 10 {
        mp + 3
    } else {
        mp - 9
    };
    let shifted: u64 = era * 400 + yoe;
    let y: u64 = if m <= 2 {
        shifted + 1
    } else {
        shifted
    };
    proof {
        let year = shifted as int;
        era_adds_up(era as int, yoe as int);
        assert(z == days_before_march(year) + doy);
        assert(leaps(1969) == 477);
        assert(year >= 1969) by {
            if year <= 1968 {
                leaps_grow(year, 1968);
                assert(leaps(1968) == 477);
            }
        }
        if doy < 306 {
            date_from_march(year, doy as int, mp as int);
            leap_at(year);
            assert(year >= 1970) by {
                if year == 1969 {
                    assert(z == 365 * 1969 + 477 + doy);
                }
            }
            date_from_reaches(1970, year, doy + 59 + year_length(year) - 365);
        } else {
            if doy == 365 {
                leap_in_every_era(era as int, yoe + 1);
            }
            date_from_january(year + 1, doy as int, mp as int);
            date_from_reaches(1970, year + 1, doy - 306);
        }
    }
    (y, m, d)
}

/// Renders a Unix timestamp as an ISO 8601 string in UTC.
pub fn format_unix_utc(secs: u64) -> (r: String)
    ensures
        r@ == utc_text(secs as nat),
{
    let (y, m, d): (u64, u64, u64) = civil_date(secs / 86_400);
    let tod: u64 = secs % 86_400;
    let (h, mi, s): (u64, u64, u64) = (tod / 3600, (tod % 3600) / 60, tod % 60);
    joined7(&pad(y, 4), "-", &pad(m, 2), "-", &pad(d, 2), "T", &pad(h, 2))
        .concat(":")
        .concat(&pad(mi, 2))
        .concat(":")
        .concat(&pad(s, 2))
        .concat("Z")
}

/// A date of the calendar.
pub open spec fn is_valid_date(date: Date) -> bool {
    1 <= date.month <= 12 && 1 <= date.day <= month_length(date.year, date.month)
}

proof fn year_holds_its_months(year: int, month: int, days: int)
    requires
        1 <= month <= 12,
        0 <= days < days_from_month(year, month),
    ensures
        is_valid_date(date_in_year(year, month, days)),
        date_in_year(year, month, days).year == year,
    decreases 12 - month,
{
    reveal_with_fuel(days_from_month, 3);
    if month < 12 && days >= month_length(year, month) {
        year_holds_its_months(year, month + 1, days - month_length(year, month));
    }
}

/// How many days a year has from a month on.
spec fn days_from_month(year: int, month: int) -> int
    decreases 13 - month,
{
    if month > 12 {
        0
    } else {
        month_length(year, month) + days_from_month(year, month + 1)
    }
}

proof fn counting_on_stays_valid(year: int, days: int)
    requires
        0 <= days,
    ensures
        is_valid_date(date_from(year, days)),
        date_from(year, days).year >= year,
    decreases days,
{
    if days < year_length(year) {
        reveal_with_fuel(days_from_month, 14);
        year_holds_its_months(year, 1, days);
    } else {
        counting_on_stays_valid(year + 1, days - year_length(year));
    }
}

/// Every day since 1970 has a date of the calendar.
pub proof fn every_day_has_a_valid_date(days: int)
    requires
        0 <= days,
    ensures
        is_valid_date(date_of(days)),
        date_of(days).year >= 1970,
{
    counting_on_stays_valid(1970, days);
}

// ---- Reading a moment back -------------------------------------------------

/// How many days lie before a year, from the first of January 1970.
pub open spec fn days_before_year(year: int) -> int
    decreases year - 1970,
{
    if year <= 1970 {
        0
    } else {
        days_before_year(year - 1) + year_length(year - 1)
    }
}

/// How many days of a year lie before a month.
pub open spec fn days_before_month(year: int, month: int) -> int
    decreases month,
{
    if month <= 1 {
        0
    } else {
        days_before_month(year, month - 1) + month_length(year, month - 1)
    }
}

/// How many days after the first of January 1970 a date lies.
pub open spec fn days_of(date: Date) -> int {
    days_before_year(date.year) + days_before_month(date.year, date.month) + date.day - 1
}

/// Counting off a year's months loses no day.
proof fn months_lose_no_day(year: int, month: int, days: int)
    requires
        1 <= month <= 12,
    ensures
        ({
            let date = date_in_year(year, month, days);
            &&& date.year == year
            &&& days_before_month(year, date.month) + date.day - 1 == days_before_month(
                year,
                month,
            ) + days
        }),
    decreases 12 - month,
{
    if month < 12 && days >= month_length(year, month) {
        months_lose_no_day(year, month + 1, days - month_length(year, month));
    }
}

/// Counting off years loses no day.
proof fn years_lose_no_day(year: int, days: int)
    requires
        1970 <= year,
        0 <= days,
    ensures
        days_of(date_from(year, days)) == days_before_year(year) + days,
    decreases days,
{
    if days < year_length(year) {
        months_lose_no_day(year, 1, days);
    } else {
        years_lose_no_day(year + 1, days - year_length(year));
    }
}

/// The date of a day lies as many days after the first of January 1970 as the
/// day's number says.
pub proof fn a_date_counts_its_days(days: int)
    requires
        0 <= days,
    ensures
        days_of(date_of(days)) == days,
{
    years_lose_no_day(1970, days);
}

/// Later years have more days before them.
proof fn years_add_up(from: int, to: int)
    requires
        1970 <= from <= to,
    ensures
        days_before_year(from) <= days_before_year(to),
        days_before_year(from) == 365 * (from - 1970) + leaps(from - 1) - leaps(1969),
    decreases to + (from - 1970),
{
    if from < to {
        years_add_up(from, to - 1);
    } else if from > 1970 {
        years_add_up(from - 1, from - 1);
        leap_at(from - 1);
    }
}

/// Later months have more days before them, and a year no more than its own.
proof fn months_add_up(year: int, from: int, to: int)
    requires
        1 <= from <= to <= 13,
    ensures
        days_before_month(year, from) <= days_before_month(year, to),
        days_before_month(year, 13) == year_length(year),
    decreases to - from,
{
    reveal_with_fuel(days_before_month, 14);
    if from < to {
        months_add_up(year, from, to - 1);
    }
}

/// The earlier of two dates.
pub open spec fn is_earlier(a: Date, b: Date) -> bool {
    a.year < b.year || (a.year == b.year && (a.month < b.month || (a.month == b.month && a.day
        < b.day)))
}

/// An earlier date has fewer days before it.
proof fn earlier_dates_have_fewer_days(a: Date, b: Date)
    requires
        is_valid_date(a),
        is_valid_date(b),
        1970 <= a.year,
        is_earlier(a, b),
    ensures
        days_of(a) < days_of(b),
{
    months_add_up(a.year, a.month + 1, 13);
    assert(days_before_month(a.year, a.month + 1) == days_before_month(a.year, a.month)
        + month_length(a.year, a.month));
    if a.year < b.year {
        years_add_up(a.year + 1, b.year);
        months_add_up(b.year, 1, b.month);
    } else if a.month < b.month {
        months_add_up(a.year, a.month + 1, b.month);
    }
}

/// Up to the last second of the year 9999 a year has four digits.
proof fn years_have_four_digits(secs: nat)
    requires
        secs <= 253_402_300_799,
    ensures
        1970 <= date_of((secs / 86_400) as int).year <= 9999,
{
    let days = (secs / 86_400) as int;
    let date = date_of(days);
    every_day_has_a_valid_date(days);
    a_date_counts_its_days(days);
    if date.year > 9999 {
        years_add_up(10_000, date.year);
        months_add_up(date.year, 1, date.month);
        assert(leaps(9999) == 2424);
        assert(leaps(1969) == 477);
    }
}

/// A number below a hundred in two digits.
proof fn two_digits(n: nat)
    requires
        n < 100,
    ensures
        padded(n, 2) == seq![digit_char((n / 10) as int), digit_char((n % 10) as int)],
        decimal_value(padded(n, 2)) == n,
{
    reveal_with_fuel(decimal, 3);
    let digits = seq![digit_char((n / 10) as int), digit_char((n % 10) as int)];
    assert(padded(n, 2) =~= digits);
    reveal_with_fuel(decimal_value, 3);
    assert(digits.drop_last() =~= seq![digits[0]]);
    assert(digits.drop_last().drop_last() =~= seq![]);
}

/// A number below ten thousand that has four digits, in four digits.
proof fn four_digits(n: nat)
    requires
        1000 <= n < 10_000,
    ensures
        padded(n, 4) == seq![
            digit_char((n / 1000) as int),
            digit_char((n / 100 % 10) as int),
            digit_char((n / 10 % 10) as int),
            digit_char((n % 10) as int),
        ],
        decimal_value(padded(n, 4)) == n,
{
    let thousands = decimal(n / 10 / 10 / 10);
    assert(n / 10 / 10 / 10 == n / 1000);
    assert(n / 10 / 10 == n / 100);
    assert(thousands =~= seq![digit_char((n / 1000) as int)]);
    assert(decimal(n / 100) =~= thousands.push(digit_char((n / 100 % 10) as int)));
    assert(decimal(n / 10) =~= decimal(n / 100).push(digit_char((n / 10 % 10) as int)));
    assert(decimal(n) =~= decimal(n / 10).push(digit_char((n % 10) as int)));
    decimal_reads_back(n);
}

/// The fields of a moment's text, by where they stand.
pub struct Fields {
    pub date: Date,
    pub hour: int,
    pub minute: int,
    pub second: int,
}

/// The number that the digits from `from` up to `to` write.
pub open spec fn number_at(text: Seq<char>, from: int, to: int) -> int {
    decimal_value(text.subrange(from, to)) as int
}

/// The fields that a text with the shape `YYYY-MM-DDThh:mm:ssZ` writes.
pub open spec fn fields_of(text: Seq<char>) -> Fields {
    Fields {
        date: Date {
            year: number_at(text, 0, 4),
            month: number_at(text, 5, 7),
            day: number_at(text, 8, 10),
        },
        hour: number_at(text, 11, 13),
        minute: number_at(text, 14, 16),
        second: number_at(text, 17, 19),
    }
}

/// The text has the shape `YYYY-MM-DDThh:mm:ssZ`: digits, with these marks
/// between them.
pub open spec fn is_utc_shaped(text: Seq<char>) -> bool {
    &&& text.len() == 20
    &&& text[4] == '-' && text[7] == '-' && text[10] == 'T'
    &&& text[13] == ':' && text[16] == ':' && text[19] == 'Z'
    &&& forall|i: int|
        0 <= i < 19 && i != 4 && i != 7 && i != 10 && i != 13 && i != 16 ==> is_digit(
            #[trigger] text[i],
        )
}

/// The fields are those of a day of the calendar and of a time of day.
pub open spec fn are_valid_fields(fields: Fields) -> bool {
    &&& is_valid_date(fields.date)
    &&& 0 <= fields.hour < 24
    &&& 0 <= fields.minute < 60
    &&& 0 <= fields.second < 60
}

/// The second that fields stand for, from the first moment of 1970.
pub open spec fn second_of(fields: Fields) -> int {
    days_of(fields.date) * 86_400 + fields.hour * 3600 + fields.minute * 60 + fields.second
}

/// The fields of a second.
spec fn fields_at(secs: nat) -> Fields {
    let time = secs % 86_400;
    Fields {
        date: date_of((secs / 86_400) as int),
        hour: (time / 3600) as int,
        minute: ((time % 3600) / 60) as int,
        second: (time % 60) as int,
    }
}

/// Where the fields of a moment's text stand.
proof fn fields_stand_in_place(secs: nat)
    requires
        secs <= 253_402_300_799,
    ensures
        ({
            let text = utc_text(secs);
            let fields = fields_at(secs);
            &&& text.len() == 20
            &&& are_valid_fields(fields)
            &&& 1970 <= fields.date.year <= 9999
            &&& text.subrange(0, 4) == padded(fields.date.year as nat, 4)
            &&& text.subrange(5, 7) == padded(fields.date.month as nat, 2)
            &&& text.subrange(8, 10) == padded(fields.date.day as nat, 2)
            &&& text.subrange(11, 13) == padded(fields.hour as nat, 2)
            &&& text.subrange(14, 16) == padded(fields.minute as nat, 2)
            &&& text.subrange(17, 19) == padded(fields.second as nat, 2)
            &&& text[4] == '-' && text[7] == '-' && text[10] == 'T'
            &&& text[13] == ':' && text[16] == ':' && text[19] == 'Z'
        }),
{
    let text = utc_text(secs);
    let fields = fields_at(secs);
    every_day_has_a_valid_date((secs / 86_400) as int);
    years_have_four_digits(secs);
    reveal_strlit("-");
    reveal_strlit("T");
    reveal_strlit(":");
    reveal_strlit("Z");
    four_digits(fields.date.year as nat);
    two_digits(fields.date.month as nat);
    two_digits(fields.date.day as nat);
    two_digits(fields.hour as nat);
    two_digits(fields.minute as nat);
    two_digits(fields.second as nat);
    assert(text.subrange(0, 4) =~= padded(fields.date.year as nat, 4));
    assert(text.subrange(5, 7) =~= padded(fields.date.month as nat, 2));
    assert(text.subrange(8, 10) =~= padded(fields.date.day as nat, 2));
    assert(text.subrange(11, 13) =~= padded(fields.hour as nat, 2));
    assert(text.subrange(14, 16) =~= padded(fields.minute as nat, 2));
    assert(text.subrange(17, 19) =~= padded(fields.second as nat, 2));
}

/// A second in its fields is the second again.
proof fn fields_add_up(secs: nat)
    ensures
        second_of(fields_at(secs)) == secs,
{
    a_date_counts_its_days((secs / 86_400) as int);
    let time = secs % 86_400;
    assert((time % 3600) % 60 == time % 60);
    assert(time == (time / 3600) * 3600 + ((time % 3600) / 60) * 60 + time % 60);
}

/// A stretch of a text that writes a number holds digits.
proof fn digits_in_place(text: Seq<char>, from: int, width: nat, n: nat, i: int)
    requires
        0 <= from <= i < from + width <= text.len(),
        text.subrange(from, from + width) == padded(n, width),
    ensures
        is_digit(text[i]),
{
    decimal_reads_back(n);
    assert(text[i] == padded(n, width)[i - from]);
}

/// The text of a moment has its digits and marks in place.
proof fn a_moment_has_its_shape(secs: nat)
    requires
        secs <= 253_402_300_799,
    ensures
        is_utc_shaped(utc_text(secs)),
{
    let text = utc_text(secs);
    let fields = fields_at(secs);
    fields_stand_in_place(secs);
    assert forall|i: int|
        0 <= i < 19 && i != 4 && i != 7 && i != 10 && i != 13 && i != 16 implies is_digit(
        #[trigger] text[i],
    ) by {
        if i < 4 {
            digits_in_place(text, 0, 4, fields.date.year as nat, i);
        } else if i < 7 {
            digits_in_place(text, 5, 2, fields.date.month as nat, i);
        } else if i < 10 {
            digits_in_place(text, 8, 2, fields.date.day as nat, i);
        } else if i < 13 {
            digits_in_place(text, 11, 2, fields.hour as nat, i);
        } else if i < 16 {
            digits_in_place(text, 14, 2, fields.minute as nat, i);
        } else {
            digits_in_place(text, 17, 2, fields.second as nat, i);
        }
    }
}

/// Two digits write their number.
proof fn two_digits_read_back(n: nat)
    requires
        n < 100,
    ensures
        decimal_value(padded(n, 2)) == n,
{
    two_digits(n);
}

/// Four digits write their number.
proof fn four_digits_read_back(n: nat)
    requires
        1000 <= n < 10_000,
    ensures
        decimal_value(padded(n, 4)) == n,
{
    four_digits(n);
}

/// The text of a moment has the shape `YYYY-MM-DDThh:mm:ssZ` up to the last
/// second of the year 9999, it writes a day of the calendar and a time of day, and
/// reading it back gives the second.
pub proof fn a_moment_reads_back(secs: nat)
    requires
        secs <= 253_402_300_799,
    ensures
        is_utc_shaped(utc_text(secs)),
        are_valid_fields(fields_of(utc_text(secs))),
        second_of(fields_of(utc_text(secs))) == secs,
{
    let fields = fields_at(secs);
    a_moment_has_its_shape(secs);
    fields_stand_in_place(secs);
    fields_add_up(secs);
    four_digits_read_back(fields.date.year as nat);
    two_digits_read_back(fields.date.month as nat);
    two_digits_read_back(fields.date.day as nat);
    two_digits_read_back(fields.hour as nat);
    two_digits_read_back(fields.minute as nat);
    two_digits_read_back(fields.second as nat);
    assert(fields_of(utc_text(secs)) == fields);
}

/// Two texts that are the same before position `k`, where the first has the
/// smaller character, stand in that order.
proof fn the_first_difference_decides(a: Seq<char>, b: Seq<char>, k: int)
    requires
        0 <= k < a.len(),
        k < b.len(),
        a[k] < b[k],
        forall|i: int| 0 <= i < k ==> a[i] == b[i],
    ensures
        text_le(a, b),
        a != b,
    decreases k,
{
    if k > 0 {
        assert(a[0] == b[0]);
        assert forall|i: int| 0 <= i < k - 1 implies a.skip(1)[i] == b.skip(1)[i] by {
            assert(a[i + 1] == b[i + 1]);
        }
        the_first_difference_decides(a.skip(1), b.skip(1), k - 1);
    }
}

/// Of two numbers in two digits the first difference shows which is smaller; it
/// stands at the position that comes back.
proof fn two_digits_differ(n: nat, m: nat) -> (k: int)
    requires
        n < m < 100,
    ensures
        0 <= k < 2,
        padded(n, 2).len() == 2 && padded(m, 2).len() == 2,
        padded(n, 2)[k] < padded(m, 2)[k],
        forall|i: int| 0 <= i < k ==> padded(n, 2)[i] == padded(m, 2)[i],
{
    two_digits(n);
    two_digits(m);
    if n / 10 < m / 10 {
        0
    } else {
        1
    }
}

/// The four digits of a number below ten thousand make up the number.
proof fn digits_make_up(n: nat)
    requires
        n < 10_000,
    ensures
        n == 1000 * (n / 1000) + 100 * (n / 100 % 10) + 10 * (n / 10 % 10) + n % 10,
        n / 1000 < 10,
{
    let tens = n / 10;
    let hundreds = n / 100;
    assert(n == 10 * tens + n % 10);
    assert(hundreds == tens / 10);
    assert(tens == 10 * hundreds + tens % 10);
    assert(n / 1000 == hundreds / 10);
    assert(hundreds == 10 * (hundreds / 10) + hundreds % 10);
}

/// Of two numbers in four digits the first difference shows which is smaller; it
/// stands at the position that comes back.
#[verifier::rlimit(40)]
proof fn four_digits_differ(n: nat, m: nat) -> (k: int)
    requires
        1000 <= n < m < 10_000,
    ensures
        0 <= k < 4,
        padded(n, 4).len() == 4 && padded(m, 4).len() == 4,
        padded(n, 4)[k] < padded(m, 4)[k],
        forall|i: int| 0 <= i < k ==> padded(n, 4)[i] == padded(m, 4)[i],
{
    four_digits(n);
    four_digits(m);
    digits_make_up(n);
    digits_make_up(m);
    let (p, q) = (padded(n, 4), padded(m, 4));
    let (n3, n2, n1): (nat, nat, nat) = (n / 1000, n / 100 % 10, n / 10 % 10);
    let (m3, m2, m1): (nat, nat, nat) = (m / 1000, m / 100 % 10, m / 10 % 10);
    if n3 != m3 {
        assert(n3 < m3);
        0
    } else if n2 != m2 {
        assert(n2 < m2);
        assert(p[0] == q[0]);
        1
    } else if n1 != m1 {
        assert(n1 < m1);
        assert(p[0] == q[0] && p[1] == q[1]);
        2
    } else {
        assert(n % 10 < m % 10);
        assert(p[0] == q[0] && p[1] == q[1] && p[2] == q[2]);
        3
    }
}

/// Texts that agree up to a field stand in the order of their fields, where these
/// differ.
proof fn the_first_field_decides(
    x: Seq<char>,
    y: Seq<char>,
    from: int,
    p: Seq<char>,
    q: Seq<char>,
    k: int,
)
    requires
        0 <= from,
        0 <= k < p.len() == q.len(),
        from + p.len() <= x.len(),
        from + p.len() <= y.len(),
        x.subrange(0, from) == y.subrange(0, from),
        x.subrange(from, from + p.len()) == p,
        y.subrange(from, from + p.len()) == q,
        p[k] < q[k],
        forall|i: int| 0 <= i < k ==> p[i] == q[i],
    ensures
        text_le(x, y),
        x != y,
{
    assert forall|i: int| 0 <= i < from + k implies x[i] == y[i] by {
        if i < from {
            assert(x[i] == x.subrange(0, from)[i]);
            assert(y[i] == y.subrange(0, from)[i]);
        } else {
            assert(x[i] == p[i - from]);
            assert(y[i] == q[i - from]);
        }
    }
    assert(x[from + k] == p[k]);
    assert(y[from + k] == q[k]);
    the_first_difference_decides(x, y, from + k);
}

/// Texts that agree up to a mark and in the field behind it agree up to that
/// field's end.
proof fn agreement_grows(x: Seq<char>, y: Seq<char>, from: int, to: int)
    requires
        0 <= from < to,
        to <= x.len(),
        to <= y.len(),
        x.subrange(0, from) == y.subrange(0, from),
        x[from] == y[from],
        x.subrange(from + 1, to) == y.subrange(from + 1, to),
    ensures
        x.subrange(0, to) == y.subrange(0, to),
        x.subrange(0, from + 1) == y.subrange(0, from + 1),
{
    assert forall|i: int| 0 <= i < to implies x[i] == y[i] by {
        if i < from {
            assert(x[i] == x.subrange(0, from)[i]);
            assert(y[i] == y.subrange(0, from)[i]);
        } else if i > from {
            assert(x[i] == x.subrange(from + 1, to)[i - from - 1]);
            assert(y[i] == y.subrange(from + 1, to)[i - from - 1]);
        }
    }
    assert(x.subrange(0, to) =~= y.subrange(0, to));
    assert(x.subrange(0, from + 1) =~= y.subrange(0, from + 1));
}

/// Where the times of day stand in order on one day, so do the texts.
proof fn later_times_have_later_texts(a: nat, b: nat)
    requires
        a < b <= 253_402_300_799,
        fields_at(a).date == fields_at(b).date,
    ensures
        text_le(utc_text(a), utc_text(b)),
        utc_text(a) != utc_text(b),
{
    let (x, y) = (utc_text(a), utc_text(b));
    let (f, g) = (fields_at(a), fields_at(b));
    fields_stand_in_place(a);
    fields_stand_in_place(b);
    fields_add_up(a);
    fields_add_up(b);
    assert(x.subrange(0, 0) =~= y.subrange(0, 0));
    assert(x.subrange(0, 4) == y.subrange(0, 4));
    agreement_grows(x, y, 4, 7);
    agreement_grows(x, y, 7, 10);
    assert(x.subrange(0, 11) =~= x.subrange(0, 10).push('T'));
    assert(y.subrange(0, 11) =~= y.subrange(0, 10).push('T'));
    if f.hour != g.hour {
        let k = two_digits_differ(f.hour as nat, g.hour as nat);
        the_first_field_decides(x, y, 11, x.subrange(11, 13), y.subrange(11, 13), k);
    } else {
        agreement_grows(x, y, 10, 13);
        assert(x.subrange(0, 14) =~= x.subrange(0, 13).push(':'));
        assert(y.subrange(0, 14) =~= y.subrange(0, 13).push(':'));
        if f.minute != g.minute {
            let k = two_digits_differ(f.minute as nat, g.minute as nat);
            the_first_field_decides(x, y, 14, x.subrange(14, 16), y.subrange(14, 16), k);
        } else {
            agreement_grows(x, y, 13, 16);
            assert(x.subrange(0, 17) =~= x.subrange(0, 16).push(':'));
            assert(y.subrange(0, 17) =~= y.subrange(0, 16).push(':'));
            let k = two_digits_differ(f.second as nat, g.second as nat);
            the_first_field_decides(x, y, 17, x.subrange(17, 19), y.subrange(17, 19), k);
        }
    }
}

/// Where the dates stand in order, so do the texts.
proof fn later_dates_have_later_texts(a: nat, b: nat)
    requires
        a <= 253_402_300_799,
        b <= 253_402_300_799,
        is_earlier(fields_at(a).date, fields_at(b).date),
    ensures
        text_le(utc_text(a), utc_text(b)),
        utc_text(a) != utc_text(b),
{
    let (x, y) = (utc_text(a), utc_text(b));
    let (f, g) = (fields_at(a).date, fields_at(b).date);
    fields_stand_in_place(a);
    fields_stand_in_place(b);
    assert(x.subrange(0, 0) =~= y.subrange(0, 0));
    if f.year != g.year {
        let k = four_digits_differ(f.year as nat, g.year as nat);
        the_first_field_decides(x, y, 0, x.subrange(0, 4), y.subrange(0, 4), k);
    } else {
        assert(x.subrange(0, 5) =~= x.subrange(0, 4).push('-'));
        assert(y.subrange(0, 5) =~= y.subrange(0, 4).push('-'));
        if f.month != g.month {
            let k = two_digits_differ(f.month as nat, g.month as nat);
            the_first_field_decides(x, y, 5, x.subrange(5, 7), y.subrange(5, 7), k);
        } else {
            agreement_grows(x, y, 4, 7);
            assert(x.subrange(0, 8) =~= x.subrange(0, 7).push('-'));
            assert(y.subrange(0, 8) =~= y.subrange(0, 7).push('-'));
            let k = two_digits_differ(f.day as nat, g.day as nat);
            the_first_field_decides(x, y, 8, x.subrange(8, 10), y.subrange(8, 10), k);
        }
    }
}

/// Up to the last second of the year 9999, a later second has a later text in the
/// order of the characters, and so a text of its own.
pub proof fn later_moments_have_later_texts(a: nat, b: nat)
    requires
        a < b <= 253_402_300_799,
    ensures
        text_le(utc_text(a), utc_text(b)),
        utc_text(a) != utc_text(b),
{
    let (f, g) = (fields_at(a).date, fields_at(b).date);
    fields_stand_in_place(a);
    fields_stand_in_place(b);
    a_date_counts_its_days((a / 86_400) as int);
    a_date_counts_its_days((b / 86_400) as int);
    if is_earlier(f, g) {
        later_dates_have_later_texts(a, b);
    } else if is_earlier(g, f) {
        earlier_dates_have_fewer_days(g, f);
        assert(a / 86_400 <= b / 86_400);
    } else {
        later_times_have_later_texts(a, b);
    }
}

}
