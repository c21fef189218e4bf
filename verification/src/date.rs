//! Calendar dates of the proleptic Gregorian calendar, as the license payload
//! carries them: comparison in calendar order and the ISO 8601 text forms.

use vstd::prelude::*;
use crate::text::{
    decimal_digit, lemma_decimal_digit_injective, lemma_padded_decimal_digits,
    lemma_padded_decimal_injective, lemma_two_digits, padded_decimal, push_char,
    push_padded_decimal,
};

verus! {

/// Earliest year a date may carry.
pub const MIN_YEAR: i32 = -262143;

/// Latest year a date may carry.
pub const MAX_YEAR: i32 = 262142;

pub open spec fn is_leap_year(year: int) -> bool {
    (year % 4 == 0 && year % 100 != 0) || year % 400 == 0
}

pub open spec fn days_in_month(year: int, month: int) -> int {
    if month == 2 {
        if is_leap_year(year) { 29 } else { 28 }
    } else if month == 4 || month == 6 || month == 9 || month == 11 {
        30
    } else {
        31
    }
}

/// `(year, month, day)` names an existing day within the supported years.
pub open spec fn is_calendar_date(year: int, month: int, day: int) -> bool {
    &&& MIN_YEAR <= year <= MAX_YEAR
    &&& 1 <= month <= 12
    &&& 1 <= day <= days_in_month(year, month)
}

/// `a` is a strictly earlier day than `b` (dates as `(year, month, day)`).
pub open spec fn date_before(a: (int, int, int), b: (int, int, int)) -> bool {
    ||| a.0 < b.0
    ||| a.0 == b.0 && a.1 < b.1
    ||| a.0 == b.0 && a.1 == b.1 && a.2 < b.2
}

/// The year as ISO 8601 writes it: four digits for years 0 to 9999, and an
/// explicit sign followed by at least four digits for the others.
pub open spec fn year_text(year: int) -> Seq<char> {
    if 0 <= year <= 9999 {
        padded_decimal(year as nat, 4)
    } else if year < 0 {
        seq!['-'] + padded_decimal((-year) as nat, 4)
    } else {
        seq!['+'] + padded_decimal(year as nat, 4)
    }
}

/// `YYYY-MM-DD`.
pub open spec fn date_text(d: (int, int, int)) -> Seq<char> {
    year_text(d.0) + seq!['-'] + padded_decimal(d.1 as nat, 2) + seq!['-'] + padded_decimal(
        d.2 as nat,
        2,
    )
}

/// `YYYYMMDD`.
pub open spec fn compact_date_text(d: (int, int, int)) -> Seq<char> {
    year_text(d.0) + padded_decimal(d.1 as nat, 2) + padded_decimal(d.2 as nat, 2)
}

/// A calendar day. Every value names an existing day between
/// `MIN_YEAR`-01-01 and `MAX_YEAR`-12-31.
#[derive(Clone, Copy, Debug, PartialEq, Eq, Structural)]
pub struct LicenseDate {
    year: i32,
    month: u32,
    day: u32,
}

impl View for LicenseDate {
    type V = (int, int, int);

    closed spec fn view(&self) -> (int, int, int) {
        (self.year as int, self.month as int, self.day as int)
    }
}

impl LicenseDate {
    #[verifier::type_invariant]
    closed spec fn well_formed(self) -> bool {
        is_calendar_date(self.year as int, self.month as int, self.day as int)
    }

    /// The day `year`-`month`-`day`, or `None` when there is no such day.
    pub fn new(year: i32, month: u32, day: u32) -> (r: Option<LicenseDate>)
        ensures
            r is Some <==> is_calendar_date(year as int, month as int, day as int),
            r matches Some(d) ==> d@ == (year as int, month as int, day as int),
    {
        if year < MIN_YEAR || year > MAX_YEAR || month < 1 || month > 12 || day < 1 {
            return None;
        }
        let leap: bool = (year % 4 == 0 && year % 100 != 0) || year % 400 == 0;
        assert(leap == is_leap_year(year as int));
        let last: u32 = if month == 2 {
            if leap { 29 } else { 28 }
        } else if month == 4 || month == 6 || month == 9 || month == 11 {
            30
        } else {
            31
        };
        if day > last {
            return None;
        }
        Some(LicenseDate { year, month, day })
    }

    pub fn year(&self) -> (y: i32)
        ensures
            y == self@.0,
            MIN_YEAR <= y <= MAX_YEAR,
    {
        proof { use_type_invariant(self); }
        self.year
    }

    pub fn month(&self) -> (m: u32)
        ensures
            m == self@.1,
            1 <= m <= 12,
    {
        proof { use_type_invariant(self); }
        self.month
    }

    pub fn day(&self) -> (d: u32)
        ensures
            d == self@.2,
            1 <= d <= 31,
    {
        proof { use_type_invariant(self); }
        self.day
    }

    /// Whether `self` is a strictly earlier day than `other`.
    pub fn is_before(&self, other: &LicenseDate) -> (r: bool)
        ensures
            r == date_before(self@, other@),
            r <==> (self@.0 < other@.0 || (self@.0 == other@.0 && self@.1 < other@.1) || (self@.0
                == other@.0 && self@.1 == other@.1 && self@.2 < other@.2)),
    {
        self.year < other.year || (self.year == other.year && (self.month < other.month || (
        self.month == other.month && self.day < other.day)))
    }

    /// Appends the year in its ISO 8601 form.
    fn push_year(&self, out: &mut String)
        ensures
            final(out)@ == old(out)@ + year_text(self@.0),
    {
        proof { use_type_invariant(self); }
        let y: i32 = self.year;
        if 0 <= y && y <= 9999 {
            push_padded_decimal(out, y as u32, 4);
        } else if y < 0 {
            push_char(out, '-');
            push_padded_decimal(out, (-y) as u32, 4);
            assert(out@ =~= old(out)@ + year_text(self@.0));
        } else {
            push_char(out, '+');
            push_padded_decimal(out, y as u32, 4);
            assert(out@ =~= old(out)@ + year_text(self@.0));
        }
    }

    /// The day as `YYYY-MM-DD` (the ISO 8601 calendar date).
    pub fn to_text(&self) -> (s: String)
        ensures
            s@ == date_text(self@),
    {
        proof { use_type_invariant(self); }
        let mut s = String::new();
        self.push_year(&mut s);
        push_char(&mut s, '-');
        push_padded_decimal(&mut s, self.month, 2);
        push_char(&mut s, '-');
        push_padded_decimal(&mut s, self.day, 2);
        assert(s@ =~= date_text(self@));
        s
    }

    /// The day as `YYYYMMDD`.
    pub fn to_compact_text(&self) -> (s: String)
        ensures
            s@ == compact_date_text(self@),
    {
        proof { use_type_invariant(self); }
        let mut s = String::new();
        self.push_year(&mut s);
        push_padded_decimal(&mut s, self.month, 2);
        push_padded_decimal(&mut s, self.day, 2);
        assert(s@ =~= compact_date_text(self@));
        s
    }
}


/// The ISO 8601 text of a year names the year.
pub proof fn lemma_year_text_injective(y1: int, y2: int)
    requires
        year_text(y1) == year_text(y2),
    ensures
        y1 == y2,
{
    let t = year_text(y1);
    if 0 <= y1 <= 9999 {
        lemma_padded_decimal_digits(y1 as nat, 4);
        assert('0' <= t[0] <= '9');
    } else if y1 < 0 {
        assert(t[0] == '-');
    } else {
        assert(t[0] == '+');
    }
    if 0 <= y2 <= 9999 {
        lemma_padded_decimal_digits(y2 as nat, 4);
        assert('0' <= year_text(y2)[0] <= '9');
    } else if y2 < 0 {
        assert(year_text(y2)[0] == '-');
    } else {
        assert(year_text(y2)[0] == '+');
    }
    if 0 <= y1 <= 9999 {
        lemma_padded_decimal_injective(y1 as nat, y2 as nat, 4);
    } else if y1 < 0 {
        assert(t.drop_first() =~= padded_decimal((-y1) as nat, 4));
        assert(year_text(y2).drop_first() =~= padded_decimal((-y2) as nat, 4));
        lemma_padded_decimal_injective((-y1) as nat, (-y2) as nat, 4);
    } else {
        assert(t.drop_first() =~= padded_decimal(y1 as nat, 4));
        assert(year_text(y2).drop_first() =~= padded_decimal(y2 as nat, 4));
        lemma_padded_decimal_injective(y1 as nat, y2 as nat, 4);
    }
}

/// The `YYYY-MM-DD` text of a calendar day names the day.
pub proof fn lemma_date_text_injective(a: (int, int, int), b: (int, int, int))
    requires
        is_calendar_date(a.0, a.1, a.2),
        is_calendar_date(b.0, b.1, b.2),
        date_text(a) == date_text(b),
    ensures
        a == b,
{
    lemma_two_digits(a.1 as nat);
    lemma_two_digits(a.2 as nat);
    lemma_two_digits(b.1 as nat);
    lemma_two_digits(b.2 as nat);
    let tail_a = seq![
        '-',
        decimal_digit(a.1 / 10),
        decimal_digit(a.1 % 10),
        '-',
        decimal_digit(a.2 / 10),
        decimal_digit(a.2 % 10),
    ];
    let tail_b = seq![
        '-',
        decimal_digit(b.1 / 10),
        decimal_digit(b.1 % 10),
        '-',
        decimal_digit(b.2 / 10),
        decimal_digit(b.2 % 10),
    ];
    let ta = date_text(a);
    let tb = date_text(b);
    assert(ta =~= year_text(a.0) + tail_a);
    assert(tb =~= year_text(b.0) + tail_b);
    let ya = year_text(a.0);
    let yb = year_text(b.0);
    assert(ya.len() == yb.len());
    assert(ya =~= ta.subrange(0, ya.len() as int));
    assert(yb =~= tb.subrange(0, yb.len() as int));
    lemma_year_text_injective(a.0, b.0);
    let k = ya.len() as int;
    assert(ta[k + 1] == tb[k + 1]);
    assert(ta[k + 2] == tb[k + 2]);
    assert(ta[k + 4] == tb[k + 4]);
    assert(ta[k + 5] == tb[k + 5]);
    lemma_decimal_digit_injective(a.1 / 10, b.1 / 10);
    lemma_decimal_digit_injective(a.1 % 10, b.1 % 10);
    lemma_decimal_digit_injective(a.2 / 10, b.2 / 10);
    lemma_decimal_digit_injective(a.2 % 10, b.2 % 10);
}

} // verus!
