//! Calendar dates, modelled as day numbers of the proleptic Gregorian
//! calendar with January 1 of year 1 as day 1.
//!
//! All date arithmetic in the library — consecutive days for gap
//! filling, retention ages, weekdays — is plain integer arithmetic on
//! the day number.  Only the two conversions between day numbers and
//! calendar fields (year, month, day) are delegated to the `chrono`
//! crate through trusted wrappers.

use vstd::prelude::*;
use crate::numfmt::{digit_char, digit_val, is_dec_digit, dec_val, digit_str};
use crate::strutil::{eq_ignore_case, lower_seq};

verus! {

broadcast use vstd::string::group_string_axioms;

/// Day number of January 1 of year 1, the earliest date the library
/// represents.
pub const DAY_MIN: i32 = 1;

/// Day number of December 31 of year 9999, the latest date the library
/// represents.
pub const DAY_MAX: i32 = 3652059;

/// The day number that `chrono` assigns to the calendar date
/// (year, month, day), if that date exists and is in range.
pub uninterp spec fn day_number_of_ymd(y: int, m: int, d: int) -> Option<int>;

/// The calendar fields (year, month, day) that `chrono` assigns to a
/// day number, if it is in range.
pub uninterp spec fn ymd_of_day_number(days: int) -> Option<(int, int, int)>;

/// Relies on `chrono::NaiveDate::from_ymd_opt` and
/// `chrono::Datelike::num_days_from_ce`: the day number of a calendar
/// date, counting January 1 of year 1 as day 1; `None` exactly on
/// invalid or out-of-range dates.  Day numbers of the years 1 through
/// 9999 lie between `DAY_MIN` and `DAY_MAX`.
#[verifier::external_body]
fn ymd_to_day_number(y: i32, m: u32, d: u32) -> (r: Option<i32>)
    ensures
        r is Some <==> day_number_of_ymd(y as int, m as int, d as int) is Some,
        r is Some ==> r->0 == day_number_of_ymd(y as int, m as int, d as int)->0,
        1 <= y <= 9999 && r is Some ==> DAY_MIN <= r->0 <= DAY_MAX,
{
    chrono::NaiveDate::from_ymd_opt(y, m, d).map(|nd| chrono::Datelike::num_days_from_ce(&nd))
}

/// Relies on `chrono::NaiveDate::from_num_days_from_ce_opt` and the
/// `chrono::Datelike` accessors `year`, `month` and `day`: the calendar
/// fields of a day number, the inverse of the day-number conversion.
/// Every day number between `DAY_MIN` and `DAY_MAX` has calendar
/// fields, with the year between 1 and 9999.
#[verifier::external_body]
fn day_number_to_ymd(days: i32) -> (r: Option<(i32, u32, u32)>)
    ensures
        r is Some <==> ymd_of_day_number(days as int) is Some,
        r is Some ==> {
            let (y, m, d) = r->0;
            &&& ymd_of_day_number(days as int) == Some((y as int, m as int, d as int))
            &&& day_number_of_ymd(y as int, m as int, d as int) == Some(days as int)
            &&& 1 <= m <= 12
            &&& 1 <= d <= 31
        },
        DAY_MIN <= days <= DAY_MAX ==> r is Some,
        r is Some && DAY_MIN <= days <= DAY_MAX ==> {
            let (y, m, d) = r->0;
            1 <= y <= 9999
        },
{
    chrono::NaiveDate::from_num_days_from_ce_opt(days).map(
        |nd| (chrono::Datelike::year(&nd), chrono::Datelike::month(&nd), chrono::Datelike::day(&nd)),
    )
}

/// A calendar date, held as its day number.
#[derive(Clone, Copy, Debug, PartialEq, Eq, Structural)]
pub struct Date {
    pub days: i32,
}

impl Date {
    /// A well-formed date lies between January 1 of year 1 and
    /// December 31 of year 9999.
    pub open spec fn wf(self) -> bool {
        DAY_MIN <= self.days <= DAY_MAX
    }

    /// The following calendar day, saturated at the last representable
    /// date.
    pub fn next_day(self) -> (r: Date)
        requires
            self.wf(),
        ensures
            r.wf(),
            r.days == if self.days < DAY_MAX { self.days + 1 } else { self.days as int },
    {
        if self.days < DAY_MAX {
            Date { days: self.days + 1 }
        } else {
            self
        }
    }

    /// The previous calendar day, saturated at the first representable
    /// date.
    pub fn prev_day(self) -> (r: Date)
        requires
            self.wf(),
        ensures
            r.wf(),
            r.days == if self.days > DAY_MIN { self.days - 1 } else { self.days as int },
    {
        if self.days > DAY_MIN {
            Date { days: self.days - 1 }
        } else {
            self
        }
    }

    /// The date `n` days earlier.
    pub fn minus_days(self, n: u16) -> (r: Date)
        requires
            self.wf(),
            self.days - n >= DAY_MIN,
        ensures
            r.wf(),
            r.days == self.days - n,
    {
        Date { days: self.days - n as i32 }
    }

    /// The weekday of the date, 0 for Monday through 6 for Sunday.
    pub fn weekday(self) -> (r: u8)
        requires
            self.wf(),
        ensures
            r as int == weekday_of(self.days as int),
            r < 7,
    {
        ((self.days - 1) % 7) as u8
    }

    /// The short weekday name shown beside the date.
    pub fn weekday_name(self) -> (r: &'static str)
        requires
            self.wf(),
        ensures
            r@ == weekday_name_chars(weekday_of(self.days as int)),
    {
        let w = self.weekday();
        match w {
            0 => "Mon",
            1 => "Tue",
            2 => "Wed",
            3 => "Thu",
            4 => "Fri",
            5 => "Sat",
            _ => "Sun",
        }
    }

    /// The date rendered as `YYYY-MM-DD`.
    pub fn text(self) -> (r: String)
        requires
            self.wf(),
        ensures
            r@ == date_chars(self.days as int),
    {
        match day_number_to_ymd(self.days) {
            Some((y, m, d)) => {
                let mut r = four_digit_string(y as u64);
                r.append("-");
                let ms = two_digit_string(m as u64);
                r.append(ms.as_str());
                r.append("-");
                let ds = two_digit_string(d as u64);
                r.append(ds.as_str());
                proof {
                    reveal_strlit("-");
                    assert(r@ =~= date_chars(self.days as int));
                }
                r
            },
            None => unreached(),
        }
    }

    /// The date rendered as `MM-DD`, the short chart label.
    pub fn month_day_text(self) -> (r: String)
        requires
            self.wf(),
        ensures
            r@ == month_day_chars(self.days as int),
    {
        match day_number_to_ymd(self.days) {
            Some((_y, m, d)) => {
                let mut r = two_digit_string(m as u64);
                r.append("-");
                let ds = two_digit_string(d as u64);
                r.append(ds.as_str());
                proof {
                    reveal_strlit("-");
                    assert(r@ =~= month_day_chars(self.days as int));
                }
                r
            },
            None => unreached(),
        }
    }
}

/// The weekday of a day number, 0 for Monday through 6 for Sunday;
/// day 1 was a Monday.
pub open spec fn weekday_of(days: int) -> int {
    (days - 1) % 7
}

/// The short name of a weekday index.
pub open spec fn weekday_name_chars(w: int) -> Seq<char> {
    if w == 0 {
        "Mon"@
    } else if w == 1 {
        "Tue"@
    } else if w == 2 {
        "Wed"@
    } else if w == 3 {
        "Thu"@
    } else if w == 4 {
        "Fri"@
    } else if w == 5 {
        "Sat"@
    } else {
        "Sun"@
    }
}

/// A number below 100 as exactly two digits.
pub open spec fn two_digit_chars(n: int) -> Seq<char> {
    seq![digit_char(n / 10), digit_char(n % 10)]
}

/// A number below 10000 as exactly four digits.
pub open spec fn four_digit_chars(n: int) -> Seq<char> {
    seq![
        digit_char(n / 1000),
        digit_char((n / 100) % 10),
        digit_char((n / 10) % 10),
        digit_char(n % 10),
    ]
}

/// The `YYYY-MM-DD` rendering of a day number; empty for a day number
/// without calendar fields.
pub open spec fn date_chars(days: int) -> Seq<char> {
    match ymd_of_day_number(days) {
        Some(t) => four_digit_chars(t.0) + seq!['-'] + two_digit_chars(t.1) + seq!['-']
            + two_digit_chars(t.2),
        None => Seq::empty(),
    }
}

/// The `MM-DD` rendering of a day number; empty for a day number
/// without calendar fields.
pub open spec fn month_day_chars(days: int) -> Seq<char> {
    match ymd_of_day_number(days) {
        Some(t) => two_digit_chars(t.1) + seq!['-'] + two_digit_chars(t.2),
        None => Seq::empty(),
    }
}

/// Whether `s` has the shape `YYYY-MM-DD`: ten characters, dashes at
/// positions four and seven, digits everywhere else.
pub open spec fn iso_shape(s: Seq<char>) -> bool {
    &&& s.len() == 10
    &&& s[4] == '-'
    &&& s[7] == '-'
    &&& is_dec_digit(s[0])
    &&& is_dec_digit(s[1])
    &&& is_dec_digit(s[2])
    &&& is_dec_digit(s[3])
    &&& is_dec_digit(s[5])
    &&& is_dec_digit(s[6])
    &&& is_dec_digit(s[8])
    &&& is_dec_digit(s[9])
}

/// The year field of a `YYYY-MM-DD` string.
pub open spec fn iso_year(s: Seq<char>) -> int {
    dec_val(s.subrange(0, 4))
}

/// The month field of a `YYYY-MM-DD` string.
pub open spec fn iso_month(s: Seq<char>) -> int {
    dec_val(s.subrange(5, 7))
}

/// The day field of a `YYYY-MM-DD` string.
pub open spec fn iso_day(s: Seq<char>) -> int {
    dec_val(s.subrange(8, 10))
}

/// The day number a `YYYY-MM-DD` string denotes, if it has the shape
/// and names an existing calendar date.
pub open spec fn parsed_day_number(s: Seq<char>) -> Option<int> {
    if iso_shape(s) {
        day_number_of_ymd(iso_year(s), iso_month(s), iso_day(s))
    } else {
        None
    }
}

/// Parses a `YYYY-MM-DD` string into a date.
///
/// Succeeds exactly when the string has the four-two-two digit shape
/// and names an existing calendar date within the representable range.
pub fn parse_iso_date(s: &str) -> (r: Option<Date>)
    ensures
        r is Some <==> (parsed_day_number(s@) is Some && DAY_MIN <= parsed_day_number(s@)->0
            <= DAY_MAX),
        r is Some ==> r->0.days == parsed_day_number(s@)->0 && r->0.wf(),
{
    let n: usize = s.unicode_len();
    if n != 10 {
        return None;
    }
    let c0 = s.get_char(0);
    let c1 = s.get_char(1);
    let c2 = s.get_char(2);
    let c3 = s.get_char(3);
    let c4 = s.get_char(4);
    let c5 = s.get_char(5);
    let c6 = s.get_char(6);
    let c7 = s.get_char(7);
    let c8 = s.get_char(8);
    let c9 = s.get_char(9);
    if c4 != '-' || c7 != '-' {
        return None;
    }
    if !digit_ok(c0) || !digit_ok(c1) || !digit_ok(c2) || !digit_ok(c3) || !digit_ok(c5)
        || !digit_ok(c6) || !digit_ok(c8) || !digit_ok(c9) {
        return None;
    }
    let y: u32 = ((c0 as u32 - 48) * 10 + (c1 as u32 - 48)) * 100 + (c2 as u32 - 48) * 10 + (c3
        as u32 - 48);
    let m: u32 = (c5 as u32 - 48) * 10 + (c6 as u32 - 48);
    let d: u32 = (c8 as u32 - 48) * 10 + (c9 as u32 - 48);
    proof {
        lemma_fixed_dec_val(s@, 0, 4);
        lemma_fixed_dec_val(s@, 5, 7);
        lemma_fixed_dec_val(s@, 8, 10);
        assert(iso_shape(s@));
    }
    match ymd_to_day_number(y as i32, m, d) {
        Some(dn) => {
            if DAY_MIN <= dn && dn <= DAY_MAX {
                Some(Date { days: dn })
            } else {
                None
            }
        },
        None => None,
    }
}

fn digit_ok(c: char) -> (r: bool)
    ensures
        r == is_dec_digit(c),
{
    '0' <= c && c <= '9'
}

/// Unfolds the decimal value of a short all-digit slice into the sum
/// of its digits' place values.
proof fn lemma_fixed_dec_val(s: Seq<char>, lo: int, hi: int)
    requires
        0 <= lo <= hi <= s.len(),
        hi - lo <= 4,
    ensures
        hi - lo == 2 ==> dec_val(s.subrange(lo, hi)) == digit_val(s[lo]) * 10 + digit_val(
            s[lo + 1],
        ),
        hi - lo == 4 ==> dec_val(s.subrange(lo, hi)) == ((digit_val(s[lo]) * 10 + digit_val(
            s[lo + 1],
        )) * 100 + digit_val(s[lo + 2]) * 10 + digit_val(s[lo + 3])),
{
    if hi - lo >= 1 {
        assert(s.subrange(lo, lo + 1).drop_last() =~= s.subrange(lo, lo));
        assert(dec_val(s.subrange(lo, lo)) == 0);
        assert(dec_val(s.subrange(lo, lo + 1)) == digit_val(s[lo]));
    }
    if hi - lo >= 2 {
        assert(s.subrange(lo, lo + 2).drop_last() =~= s.subrange(lo, lo + 1));
        assert(dec_val(s.subrange(lo, lo + 2)) == digit_val(s[lo]) * 10 + digit_val(s[lo + 1]));
    }
    if hi - lo >= 3 {
        assert(s.subrange(lo, lo + 3).drop_last() =~= s.subrange(lo, lo + 2));
        assert(dec_val(s.subrange(lo, lo + 3)) == (digit_val(s[lo]) * 10 + digit_val(s[lo + 1]))
            * 10 + digit_val(s[lo + 2]));
    }
    if hi - lo >= 4 {
        assert(s.subrange(lo, lo + 4).drop_last() =~= s.subrange(lo, lo + 3));
        assert(dec_val(s.subrange(lo, lo + 4)) == ((digit_val(s[lo]) * 10 + digit_val(s[lo + 1]))
            * 10 + digit_val(s[lo + 2])) * 10 + digit_val(s[lo + 3]));
    }
}

/// Which query a date/count pair is resolved for: a single day's
/// breakdown or one application's series.
#[derive(Clone, Copy, Debug, PartialEq, Eq, Structural)]
pub enum TypeRequest {
    Day,
    App,
}

/// `r` is the most recent occurrence of weekday `w` strictly before
/// `today`.
pub open spec fn past_weekday(r: Date, today: Date, w: int) -> bool {
    &&& weekday_of(r.days as int) == w
    &&& 1 <= today.days - r.days <= 7
}

/// The most recent date strictly before `today` that falls on the
/// given weekday (0 for Monday through 6 for Sunday).
pub fn weekday_to_date(target: u8, today: Date) -> (r: Date)
    requires
        target < 7,
        today.wf(),
        today.days - 8 >= DAY_MIN,
    ensures
        r.wf(),
        past_weekday(r, today, target as int),
{
    let wd = today.weekday();
    let mut delta: i32 = if wd >= target {
        (wd - target) as i32
    } else {
        wd as i32 + 7 - target as i32
    };
    if delta == 0 {
        delta = 7;
    }
    let r = Date { days: today.days - delta };
    proof {
        let a = today.days - 1;
        vstd::arithmetic::div_mod::lemma_fundamental_div_mod(a as int, 7);
        let q = a as int / 7;
        if wd >= target && wd as int - target < delta {
            vstd::arithmetic::div_mod::lemma_fundamental_div_mod_converse(
                r.days - 1,
                7,
                q - 1,
                target as int,
            );
        } else if wd >= target {
            vstd::arithmetic::div_mod::lemma_fundamental_div_mod_converse(
                r.days - 1,
                7,
                q,
                target as int,
            );
        } else {
            vstd::arithmetic::div_mod::lemma_fundamental_div_mod_converse(
                r.days - 1,
                7,
                q - 1,
                target as int,
            );
        }
    }
    r
}

/// The lookback count used when none was requested: one day for the
/// day view, ten for the application view.
pub open spec fn default_count(t: TypeRequest, number: u16) -> u16 {
    if number != 0 {
        number
    } else if t is Day {
        1 as u16
    } else {
        10 as u16
    }
}

/// Whether `l` (already lower-cased) is one of the relative date
/// keywords.
pub open spec fn date_keyword(l: Seq<char>) -> bool {
    ||| l == "today"@
    ||| l == "t"@
    ||| l == "yesterday"@
    ||| l == "y"@
    ||| l == "monday"@
    ||| l == "mon"@
    ||| l == "tuesday"@
    ||| l == "tue"@
    ||| l == "wednesday"@
    ||| l == "wed"@
    ||| l == "thursday"@
    ||| l == "thu"@
    ||| l == "friday"@
    ||| l == "fri"@
    ||| l == "saturday"@
    ||| l == "sat"@
    ||| l == "sunday"@
    ||| l == "sun"@
    ||| l == "last_week"@
    ||| l == "lw"@
}

/// What `get_value_or_default` resolves a request to.
///
/// The guards on the lower-cased argument are mutually exclusive for
/// any actual string, so exactly one branch describes the result.
pub open spec fn resolved_request(
    t: TypeRequest,
    date: Option<String>,
    number: u16,
    today: Date,
    r: (Date, u16),
) -> bool {
    let n = default_count(t, number);
    if date is None {
        r.0 == today && r.1 == n
    } else {
        let l = lower_seq(date->0@);
        ||| ((l == "today"@ || l == "t"@) && r.0 == today && r.1 == n)
        ||| ((l == "yesterday"@ || l == "y"@) && r.0.days == today.days - 1 && r.1 == n)
        ||| ((l == "monday"@ || l == "mon"@) && past_weekday(r.0, today, 0) && r.1 == n)
        ||| ((l == "tuesday"@ || l == "tue"@) && past_weekday(r.0, today, 1) && r.1 == n)
        ||| ((l == "wednesday"@ || l == "wed"@) && past_weekday(r.0, today, 2) && r.1 == n)
        ||| ((l == "thursday"@ || l == "thu"@) && past_weekday(r.0, today, 3) && r.1 == n)
        ||| ((l == "friday"@ || l == "fri"@) && past_weekday(r.0, today, 4) && r.1 == n)
        ||| ((l == "saturday"@ || l == "sat"@) && past_weekday(r.0, today, 5) && r.1 == n)
        ||| ((l == "sunday"@ || l == "sun"@) && past_weekday(r.0, today, 6) && r.1 == n)
        ||| ((l == "last_week"@ || l == "lw"@) && past_weekday(r.0, today, 6) && r.1 == (
            if number == 0 && t is App {
                7 as u16
            } else {
                n
            }
        ))
        ||| (!date_keyword(l) && r.1 == n && r.0.days == (match parsed_day_number(date->0@) {
            Some(dn) => if DAY_MIN <= dn <= DAY_MAX {
                dn
            } else {
                today.days as int
            },
            None => today.days as int,
        }))
    }
}

/// Resolves an optional date argument and a lookback count to concrete
/// query parameters.
///
/// The date accepts `YYYY-MM-DD`, `today`, `yesterday`, a weekday name
/// (meaning its most recent past occurrence) or `last_week`, all case
/// insensitively; anything unrecognized falls back to `today`.  A zero
/// count falls back to the view's default, and `last_week` widens an
/// unrequested application-view count to a full week.
pub fn get_value_or_default(
    type_request: TypeRequest,
    date: Option<String>,
    number: u16,
    today: Date,
) -> (r: (Date, u16))
    requires
        today.wf(),
        today.days - 8 >= DAY_MIN,
    ensures
        r.0.wf(),
        resolved_request(type_request, date, number, today, r),
{
    let number_res: u16 = if number == 0 {
        match type_request {
            TypeRequest::Day => 1,
            TypeRequest::App => 10,
        }
    } else {
        number
    };
    match date {
        None => (today, number_res),
        Some(ds) => {
            let s = ds.as_str();
            if eq_ignore_case(s, "today") || eq_ignore_case(s, "t") {
                (today, number_res)
            } else if eq_ignore_case(s, "yesterday") || eq_ignore_case(s, "y") {
                (today.minus_days(1), number_res)
            } else if eq_ignore_case(s, "monday") || eq_ignore_case(s, "mon") {
                (weekday_to_date(0, today), number_res)
            } else if eq_ignore_case(s, "tuesday") || eq_ignore_case(s, "tue") {
                (weekday_to_date(1, today), number_res)
            } else if eq_ignore_case(s, "wednesday") || eq_ignore_case(s, "wed") {
                (weekday_to_date(2, today), number_res)
            } else if eq_ignore_case(s, "thursday") || eq_ignore_case(s, "thu") {
                (weekday_to_date(3, today), number_res)
            } else if eq_ignore_case(s, "friday") || eq_ignore_case(s, "fri") {
                (weekday_to_date(4, today), number_res)
            } else if eq_ignore_case(s, "saturday") || eq_ignore_case(s, "sat") {
                (weekday_to_date(5, today), number_res)
            } else if eq_ignore_case(s, "sunday") || eq_ignore_case(s, "sun") {
                (weekday_to_date(6, today), number_res)
            } else if eq_ignore_case(s, "last_week") || eq_ignore_case(s, "lw") {
                let n2: u16 = if number == 0 && matches!(type_request, TypeRequest::App) {
                    7
                } else {
                    number_res
                };
                (weekday_to_date(6, today), n2)
            } else {
                match parse_iso_date(s) {
                    Some(dt) => (dt, number_res),
                    None => (today, number_res),
                }
            }
        },
    }
}

fn two_digit_string(n: u64) -> (r: String)
    requires
        n < 100,
    ensures
        r@ == two_digit_chars(n as int),
{
    let mut r = String::from_str(digit_str(n / 10));
    r.append(digit_str(n % 10));
    proof {
        assert(r@ =~= two_digit_chars(n as int));
    }
    r
}

fn four_digit_string(n: u64) -> (r: String)
    requires
        n < 10000,
    ensures
        r@ == four_digit_chars(n as int),
{
    let mut r = String::from_str(digit_str(n / 1000));
    r.append(digit_str((n / 100) % 10));
    r.append(digit_str((n / 10) % 10));
    r.append(digit_str(n % 10));
    proof {
        assert(r@ =~= four_digit_chars(n as int));
    }
    r
}

} // verus!
