use vstd::prelude::*;

use chrono::Datelike;

use crate::text::{digit_str, two_digits};

verus! {

/// The first day of a quest event.
pub const FIRST_DAY: u8 = 1;

/// The last day of a quest event.
pub const LAST_DAY: u8 = 25;

/// A valid quest day number, an integer from 1 to 25.
#[derive(Debug, Clone, Copy, PartialEq, Eq, PartialOrd, Ord, Hash)]
pub struct Day(u8);

impl Day {
    #[verifier::type_invariant]
    spec fn in_range(self) -> bool {
        FIRST_DAY <= self.0 <= LAST_DAY
    }

    /// The day number.
    pub closed spec fn value(self) -> int {
        self.0 as int
    }

    /// Creates a day from `day` if it is in the valid range, `None` otherwise.
    pub fn new(day: u8) -> (r: Option<Day>)
        ensures
            r is Some <==> 1 <= day <= 25,
            r matches Some(d) ==> d.value() == day,
    {
        if day == 0 || day > LAST_DAY {
            return None;
        }
        Some(Day(day))
    }

    /// Creates a day from a value the caller knows to be valid.
    pub fn __new_unchecked(day: u8) -> (r: Day)
        requires
            1 <= day <= 25,
        ensures
            r.value() == day,
    {
        Day(day)
    }

    /// The day number as an integer.
    pub fn into_inner(self) -> (r: u8)
        ensures
            r == self.value(),
            1 <= r <= 25,
    {
        proof { use_type_invariant(&self); }
        self.0
    }

    /// The two-digit display form of the day (`"08"` for the eighth).
    pub fn to_string(&self) -> (r: String)
        ensures
            r@ == two_digits(self.value() as nat),
    {
        proof { use_type_invariant(self); }
        let mut s = String::new();
        s.append(digit_str(self.0 / 10));
        s.append(digit_str(self.0 % 10));
        proof { assert(s@ =~= two_digits(self.value() as nat)); }
        s
    }

    /// Days with the same number are the same day.
    pub proof fn lemma_eq_by_value(a: Day, b: Day)
        requires
            a.value() == b.value(),
        ensures
            a == b,
    {
    }

    /// How the day number compares with `other`.
    pub fn partial_cmp_u8(&self, other: u8) -> (r: Option<core::cmp::Ordering>)
        ensures
            r == Some(
                if self.value() < other {
                    core::cmp::Ordering::Less
                } else if self.value() == other {
                    core::cmp::Ordering::Equal
                } else {
                    core::cmp::Ordering::Greater
                },
            ),
    {
        if self.0 < other {
            Some(core::cmp::Ordering::Less)
        } else if self.0 == other {
            Some(core::cmp::Ordering::Equal)
        } else {
            Some(core::cmp::Ordering::Greater)
        }
    }

    /// Whether this day comes before `other`: days are ordered by number.
    pub fn is_before(&self, other: &Day) -> (r: bool)
        ensures
            r == (self.value() < other.value()),
    {
        self.0 < other.0
    }

    /// Whether the day number equals `other`.
    pub fn eq_u8(&self, other: u8) -> (r: bool)
        ensures
            r == (self.value() == other),
    {
        self.0 == other
    }
}

/// Whether `c` is a decimal digit.
pub open spec fn is_digit(c: char) -> bool {
    '0' <= c <= '9'
}

/// Whether every character of `s` is a decimal digit.
pub open spec fn all_digits(s: Seq<char>) -> bool {
    forall|i: int| 0 <= i < s.len() ==> is_digit(#[trigger] s[i])
}

/// The value of a sequence of decimal digits.
pub open spec fn digits_value(s: Seq<char>) -> int
    decreases s.len(),
{
    if s.len() == 0 {
        0
    } else {
        digits_value(s.drop_last()) * 10 + (s.last() as int - '0' as int)
    }
}

/// The `u8` that a text denotes: an optional `+`, then at least one decimal
/// digit, of a value up to 255.
pub open spec fn u8_from_text(s: Seq<char>) -> Option<u8> {
    let body = if s.len() > 0 && s[0] == '+' {
        s.drop_first()
    } else {
        s
    };
    if body.len() > 0 && all_digits(body) && digits_value(body) <= 255 {
        Some(digits_value(body) as u8)
    } else {
        None
    }
}

/// The two-digit text of a day number parses back to that number.
pub proof fn lemma_two_digits_parse(n: nat)
    requires
        1 <= n <= 25,
    ensures
        u8_from_text(two_digits(n)) == Some(n as u8),
{
    let s = two_digits(n);
    let t = (n / 10) as int;
    let u = (n % 10) as int;
    assert(s[0] as int == t + 48);
    assert(s[1] as int == u + 48);
    assert(s.drop_last().drop_last() =~= Seq::<char>::empty());
    assert(digits_value(Seq::<char>::empty()) == 0);
    assert(s.drop_last().last() == s[0]);
    assert(s.drop_last().len() == 1);
    assert(digits_value(s.drop_last()) == t);
    assert(digits_value(s) == t * 10 + u);
    assert(all_digits(s));
}

/// Relies on `u8`'s `FromStr` (`str::parse::<u8>`), which takes an optional
/// `+` and then decimal digits of a value that fits.
#[verifier::external_body]
fn parse_u8(s: &str) -> (r: Option<u8>)
    ensures
        r == u8_from_text(s@),
{
    s.parse::<u8>().ok()
}

/// The `u16` that a text denotes: an optional `+`, then at least one decimal
/// digit, of a value up to 65535.
pub open spec fn u16_from_text(s: Seq<char>) -> Option<u16> {
    let body = if s.len() > 0 && s[0] == '+' {
        s.drop_first()
    } else {
        s
    };
    if body.len() > 0 && all_digits(body) && digits_value(body) <= 65535 {
        Some(digits_value(body) as u16)
    } else {
        None
    }
}

/// Relies on `u16`'s `FromStr` (`str::parse::<u16>`), which takes an optional
/// `+` and then decimal digits of a value that fits.
#[verifier::external_body]
fn parse_u16(s: &str) -> (r: Option<u16>)
    ensures
        r == u16_from_text(s@),
{
    s.parse::<u16>().ok()
}

/// The event year that a setting's text names, `None` where it names none.
pub fn year_from_text(s: &str) -> (r: Option<u16>)
    ensures
        r == u16_from_text(s@),
{
    parse_u16(s)
}

/// Returned when a text is no day number.
#[derive(Debug, Clone, Copy, PartialEq, Eq, Structural)]
pub struct DayFromStrError;

impl DayFromStrError {
    /// The error's message.
    pub fn message(&self) -> (r: String)
        ensures
            r@ == "expecting a day number between 1 and 25"@,
    {
        String::from_str("expecting a day number between 1 and 25")
    }
}

impl Day {
    /// Parses a day number from its decimal text.
    pub fn from_str(s: &str) -> (r: Result<Day, DayFromStrError>)
        ensures
            r is Ok <==> (u8_from_text(s@) matches Some(n) && 1 <= n <= 25),
            r matches Ok(d) ==> Some(d.value() as u8) == u8_from_text(s@),
    {
        match parse_u8(s) {
            Some(n) => match Day::new(n) {
                Some(d) => Ok(d),
                None => Err(DayFromStrError),
            },
            None => Err(DayFromStrError),
        }
    }
}

/// The offset of the event's server clock from UTC, in seconds.
pub const SERVER_UTC_OFFSET_SECS: i32 = 3600;

/// The number of weekdays that a quest event runs.
pub const EVENT_WEEKDAYS: u32 = 20;

/// The weekday of day `d` of a month whose first day has weekday `first`
/// (both counted from Monday, which is 0).
pub open spec fn weekday_at(first: int, d: int) -> int {
    (first + d - 1) % 7
}

/// Whether day `d` of the month falls on a Saturday or a Sunday.
pub open spec fn is_weekend(first: int, d: int) -> bool {
    weekday_at(first, d) >= 5
}

/// The day of the month of its first Monday.
pub open spec fn first_monday(first: int) -> int {
    1 + (7 - first) % 7
}

/// The number of weekdays from day `from` to day `d` of the month, both included.
pub open spec fn weekdays_through(first: int, from: int, d: int) -> int
    decreases d - from + 1,
{
    if d < from {
        0
    } else {
        weekdays_through(first, from, d - 1) + if is_weekend(first, d) {
            0int
        } else {
            1int
        }
    }
}

/// The quest day that day `d` of November is, 0 where it is none: the
/// event starts on the first Monday and counts weekdays only.
pub open spec fn quest_day_number(first: int, d: int) -> int {
    if d < first_monday(first) || is_weekend(first, d) {
        0
    } else {
        weekdays_through(first, first_monday(first), d)
    }
}

/// The quest day of day `day_of_month` of November, where November's first
/// day has weekday `november_first` (Monday is 0): `None` before the first
/// Monday, on a weekend and after the event's 20 weekdays.
pub fn quest_day_in_november(day_of_month: u32, november_first: u32) -> (r: Option<Day>)
    requires
        1 <= day_of_month <= 31,
        november_first < 7,
    ensures
        r is Some <==> 1 <= quest_day_number(november_first as int, day_of_month as int) <= 20,
        r matches Some(d) ==> d.value() == quest_day_number(november_first as int, day_of_month as int),
{
    let monday: u32 = 1 + (7 - november_first) % 7;
    if day_of_month < monday {
        return None;
    }
    if (november_first + day_of_month - 1) % 7 >= 5 {
        return None;
    }
    let mut count: u32 = 0;
    let mut current: u32 = monday;
    while current <= day_of_month
        invariant
            november_first < 7,
            monday == first_monday(november_first as int),
            monday <= current <= day_of_month + 1,
            day_of_month <= 31,
            count == weekdays_through(november_first as int, monday as int, current - 1),
            count <= current - monday,
        decreases day_of_month + 1 - current,
    {
        if (november_first + current - 1) % 7 < 5 {
            count = count + 1;
        }
        current = current + 1;
    }
    if count > 0 && count <= EVENT_WEEKDAYS {
        Day::new(count as u8)
    } else {
        None
    }
}

/// The weekday (Monday is 0) of a calendar date, `None` where no such date exists.
pub uninterp spec fn weekday_of(year: int, month: int, day: int) -> Option<u32>;

/// Relies on chrono's `NaiveDate::from_ymd_opt`, `Datelike::weekday` and
/// `Weekday::num_days_from_monday`: the weekday of a date, from 0 to 6.
#[verifier::external_body]
fn weekday_from_monday(year: i32, month: u32, day: u32) -> (r: Option<u32>)
    ensures
        r == weekday_of(year as int, month as int, day as int),
        r matches Some(w) ==> w < 7,
{
    chrono::NaiveDate::from_ymd_opt(year, month, day).map(|d| d.weekday().num_days_from_monday())
}

/// The date (year, month, day) of a moment given as seconds and nanoseconds
/// since the Unix epoch, read at an offset of `offset_secs` seconds east of
/// UTC; `None` where chrono has no such date or no such offset.
pub uninterp spec fn server_date_of(secs: int, nanos: int, offset_secs: int) -> Option<(i32, u32, u32)>;

/// Relies on chrono's `DateTime::from_timestamp` and `DateTime::with_timezone`
/// at the offset that `FixedOffset::east_opt` makes: the date of a moment on
/// a clock `offset_secs` seconds east of UTC, with a month from 1 to 12 and a
/// day from 1 to 31.
#[verifier::external_body]
fn server_date_at(secs: i64, nanos: u32, offset_secs: i32) -> (r: Option<(i32, u32, u32)>)
    ensures
        r == server_date_of(secs as int, nanos as int, offset_secs as int),
        r matches Some(date) ==> 1 <= date.1 <= 12 && 1 <= date.2 <= 31,
{
    let offset = chrono::FixedOffset::east_opt(offset_secs)?;
    let moment = chrono::DateTime::from_timestamp(secs, nanos)?.with_timezone(&offset);
    Some((moment.year(), moment.month(), moment.day()))
}

/// Relies on `std::time::SystemTime::now` and `SystemTime::duration_since`
/// the Unix epoch: the time now as whole seconds and the nanoseconds past
/// them, `None` where the clock reads before the epoch.
#[verifier::external_body]
fn unix_time_now() -> (r: Option<(i64, u32)>)
    ensures
        r matches Some(t) ==> t.1 < 1_000_000_000,
{
    let since = std::time::SystemTime::now().duration_since(std::time::UNIX_EPOCH).ok()?;
    Some((i64::try_from(since.as_secs()).ok()?, since.subsec_nanos()))
}

/// The quest day of a date, 0 where it is none: only November has quest
/// days, and its first day has weekday `november_first`.
pub open spec fn quest_day_of_date(month: int, day_of_month: int, november_first: int) -> int {
    if month != 11 {
        0
    } else {
        quest_day_number(november_first, day_of_month)
    }
}

/// The quest day of a date of a year whose 1 November has weekday
/// `november_first` (Monday is 0): `None` outside November, before its first
/// Monday, on a weekend and after the event's 20 weekdays.
pub fn quest_day_on(month: u32, day_of_month: u32, november_first: u32) -> (r: Option<Day>)
    requires
        1 <= day_of_month <= 31,
        november_first < 7,
    ensures
        r is Some <==> 1 <= quest_day_of_date(month as int, day_of_month as int, november_first as int) <= 20,
        r matches Some(d) ==> d.value() == quest_day_of_date(month as int, day_of_month as int, november_first as int),
{
    if month != 11 {
        return None;
    }
    quest_day_in_november(day_of_month, november_first)
}

/// The quest day at a moment given as seconds and nanoseconds since the Unix
/// epoch, read on the event server's clock, `None` where none is.
pub open spec fn quest_day_at_moment(secs: int, nanos: int) -> Option<int> {
    match server_date_of(secs, nanos, SERVER_UTC_OFFSET_SECS as int) {
        Some(date) => match weekday_of(date.0 as int, 11, 1) {
            Some(first) => {
                let n = quest_day_of_date(date.1 as int, date.2 as int, first as int);
                if 1 <= n <= 20 {
                    Some(n)
                } else {
                    None
                }
            },
            None => None,
        },
        None => None,
    }
}

/// The quest day at a moment, given as seconds and nanoseconds since the
/// Unix epoch, on the server's clock (UTC+1).
pub fn quest_day_at(secs: i64, nanos: u32) -> (r: Option<Day>)
    ensures
        r is Some <==> quest_day_at_moment(secs as int, nanos as int) is Some,
        r matches Some(d) ==> quest_day_at_moment(secs as int, nanos as int) == Some(d.value()),
{
    let (year, month, day_of_month) = match server_date_at(secs, nanos, SERVER_UTC_OFFSET_SECS) {
        Some(date) => date,
        None => {
            return None;
        },
    };
    match weekday_from_monday(year, 11, 1) {
        Some(first) => quest_day_on(month, day_of_month, first),
        None => None,
    }
}

impl Day {
    /// The current quest day while the event runs, `None` otherwise. The
    /// event starts on the first Monday of November on the server's clock
    /// (UTC+1) and runs for 20 weekdays.
    pub fn today() -> (r: Option<Day>)
        ensures
            r matches Some(d) ==> 1 <= d.value() <= 20,
            r matches Some(d) ==> exists|secs: int, nanos: int| quest_day_at_moment(secs, nanos) == Some(
                d.value(),
            ),
    {
        match unix_time_now() {
            Some((secs, nanos)) => quest_day_at(secs, nanos),
            None => None,
        }
    }
}

/// Yields every quest day from the 1st to the 25th.
pub fn all_days() -> (r: AllDays)
    ensures
        r.next_value() == 1,
{
    AllDays::new()
}

/// Yields every quest day from the 1st to the 25th, in order.
pub struct AllDays {
    current: u8,
}

impl AllDays {
    #[verifier::type_invariant]
    spec fn in_bounds(self) -> bool {
        FIRST_DAY <= self.current <= LAST_DAY + 1
    }

    /// The number of the day that the next call yields, or 26 once all were yielded.
    pub closed spec fn next_value(self) -> int {
        self.current as int
    }

    pub fn new() -> (r: AllDays)
        ensures
            r.next_value() == 1,
    {
        AllDays { current: FIRST_DAY }
    }

    /// The next day, or `None` after the 25th.
    pub fn next(&mut self) -> (r: Option<Day>)
        ensures
            1 <= old(self).next_value() <= 26,
            old(self).next_value() <= 25 ==> (r matches Some(d) && d.value() == old(self).next_value()
                && final(self).next_value() == old(self).next_value() + 1),
            old(self).next_value() > 25 ==> r is None && final(self).next_value()
                == old(self).next_value(),
    {
        proof { use_type_invariant(&*self); }
        if self.current > LAST_DAY {
            return None;
        }
        let day = Day(self.current);
        self.current = self.current + 1;
        Some(day)
    }
}

} // verus!
