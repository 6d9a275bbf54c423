use vstd::prelude::*;

verus! {

/// Earliest year the calendar moves through; chrono's `NaiveDate` reaches a little further.
pub const MIN_YEAR: i32 = -262_000;

/// Latest year the calendar moves through; chrono's `NaiveDate` reaches a little further.
pub const MAX_YEAR: i32 = 262_000;

/// Gregorian leap-year rule, proleptic (year 0 is a leap year).
pub open spec fn is_leap_year(y: int) -> bool {
    (y % 4 == 0 && y % 100 != 0) || y % 400 == 0
}

pub open spec fn leap_days(y: int) -> int {
    if is_leap_year(y) {
        1
    } else {
        0
    }
}

/// Number of days of month `m` (1-12) in year `y`.
pub open spec fn month_length(y: int, m: int) -> int {
    if m == 2 {
        28 + leap_days(y)
    } else if m == 4 || m == 6 || m == 9 || m == 11 {
        30
    } else {
        31
    }
}

/// Days of year `y` that come before the first of month `m`.
pub open spec fn days_before_month(y: int, m: int) -> int {
    let l = leap_days(y);
    if m <= 1 {
        0
    } else if m == 2 {
        31
    } else if m == 3 {
        59 + l
    } else if m == 4 {
        90 + l
    } else if m == 5 {
        120 + l
    } else if m == 6 {
        151 + l
    } else if m == 7 {
        181 + l
    } else if m == 8 {
        212 + l
    } else if m == 9 {
        243 + l
    } else if m == 10 {
        273 + l
    } else if m == 11 {
        304 + l
    } else {
        334 + l
    }
}

/// Days from January 1 of year 0 to January 1 of year `y` (negative before year 0).
pub open spec fn days_before_year(y: int) -> int {
    365 * y + (y + 3) / 4 - (y + 99) / 100 + (y + 399) / 400
}

/// A linear count of days in the proleptic Gregorian calendar.
pub open spec fn day_number(y: int, m: int, d: int) -> int {
    days_before_year(y) + days_before_month(y, m) + d - 1
}

/// The month after `(y, m)`.
pub open spec fn following_month(y: int, m: int) -> (int, int) {
    if m == 12 {
        (y + 1, 1)
    } else {
        (y, m + 1)
    }
}

/// The month before `(y, m)`.
pub open spec fn preceding_month(y: int, m: int) -> (int, int) {
    if m == 1 {
        (y - 1, 12)
    } else {
        (y, m - 1)
    }
}

/// A date `(year, month, day)` that exists and lies in the supported years.
pub open spec fn valid_date(d: (int, int, int)) -> bool {
    &&& MIN_YEAR <= d.0 <= MAX_YEAR
    &&& 1 <= d.1 <= 12
    &&& 1 <= d.2 <= month_length(d.0, d.1)
}

/// One day forward: past the month's end the day resets to 1 in the following month.
pub open spec fn next_day_of(d: (int, int, int)) -> (int, int, int) {
    if d.2 + 1 > month_length(d.0, d.1) {
        let n = following_month(d.0, d.1);
        (n.0, n.1, 1)
    } else {
        (d.0, d.1, d.2 + 1)
    }
}

/// One day back: before the 1st the day becomes the last of the preceding month.
pub open spec fn previous_day_of(d: (int, int, int)) -> (int, int, int) {
    if d.2 - 1 < 1 {
        let p = preceding_month(d.0, d.1);
        (p.0, p.1, month_length(p.0, p.1))
    } else {
        (d.0, d.1, d.2 - 1)
    }
}

/// Seven days forward: past the month's end the overshoot carries into the following month.
pub open spec fn next_week_of(d: (int, int, int)) -> (int, int, int) {
    if d.2 + 7 > month_length(d.0, d.1) {
        let n = following_month(d.0, d.1);
        (n.0, n.1, d.2 + 7 - month_length(d.0, d.1))
    } else {
        (d.0, d.1, d.2 + 7)
    }
}

/// Seven days back: before the 1st the shortfall is counted back from the preceding month's end.
pub open spec fn previous_week_of(d: (int, int, int)) -> (int, int, int) {
    if d.2 - 7 < 1 {
        let p = preceding_month(d.0, d.1);
        (p.0, p.1, month_length(p.0, p.1) + (d.2 - 7))
    } else {
        (d.0, d.1, d.2 - 7)
    }
}

/// A date that exists, in the supported years or one beyond them on either side; chrono's
/// `NaiveDate` represents all of these.
pub open spec fn in_chrono_range(y: int, m: int, d: int) -> bool {
    &&& MIN_YEAR - 1 <= y <= MAX_YEAR + 1
    &&& 1 <= m <= 12
    &&& 1 <= d <= month_length(y, m)
}

/// Relies on chrono's `NaiveDate::from_ymd_opt`, `NaiveDate::signed_duration_since` and
/// `TimeDelta::num_days`: chrono's dates follow the proleptic Gregorian calendar, every date
/// between its `MIN_YEAR` (-262143) and `MAX_YEAR` (262142) exists, and the difference of two of
/// them is a whole number of days.
#[verifier::external_body]
fn days_between(y1: i32, m1: u32, d1: u32, y2: i32, m2: u32, d2: u32) -> (r: i64)
    requires
        in_chrono_range(y1 as int, m1 as int, d1 as int),
        in_chrono_range(y2 as int, m2 as int, d2 as int),
    ensures
        r == day_number(y2 as int, m2 as int, d2 as int) - day_number(y1 as int, m1 as int, d1 as int),
{
    let from = chrono::NaiveDate::from_ymd_opt(y1, m1, d1).unwrap();
    let to = chrono::NaiveDate::from_ymd_opt(y2, m2, d2).unwrap();
    to.signed_duration_since(from).num_days()
}

proof fn lemma_div_step(x: int, k: int)
    requires
        k > 0,
    ensures
        (x + 1) / k - x / k == (if (x + 1) % k == 0 {
            1int
        } else {
            0int
        }),
{
    vstd::arithmetic::div_mod::lemma_fundamental_div_mod(x, k);
    vstd::arithmetic::div_mod::lemma_fundamental_div_mod(x + 1, k);
    let q1 = x / k;
    let q2 = (x + 1) / k;
    let r1 = x % k;
    let r2 = (x + 1) % k;
    assert(0 <= r1 < k && 0 <= r2 < k) by {
        vstd::arithmetic::div_mod::lemma_mod_bound(x, k);
        vstd::arithmetic::div_mod::lemma_mod_bound(x + 1, k);
    }
    assert(k * (q2 - q1) == 1 + r1 - r2) by (nonlinear_arith)
        requires
            x == k * q1 + r1,
            x + 1 == k * q2 + r2,
    ;
    if q2 - q1 >= 2 {
        assert(k * (q2 - q1) >= 2 * k) by (nonlinear_arith)
            requires
                q2 - q1 >= 2,
                k > 0,
        ;
    } else if q2 - q1 <= -1 {
        assert(k * (q2 - q1) <= -k) by (nonlinear_arith)
            requires
                q2 - q1 <= -1,
                k > 0,
        ;
    } else if q2 - q1 == 1 {
        assert(k * (q2 - q1) == k) by (nonlinear_arith)
            requires
                q2 - q1 == 1,
        ;
    } else {
        assert(q2 - q1 == 0);
        assert(k * (q2 - q1) == 0) by (nonlinear_arith)
            requires
                q2 - q1 == 0,
        ;
    }
}

/// A year has 365 days, one more when it is a leap year.
pub proof fn lemma_year_length(y: int)
    ensures
        days_before_year(y + 1) - days_before_year(y) == 365 + leap_days(y),
{
    lemma_div_step(y + 3, 4);
    lemma_div_step(y + 99, 100);
    lemma_div_step(y + 399, 400);
    assert((y + 4) % 4 == y % 4);
    assert((y + 100) % 100 == y % 100);
    assert((y + 400) % 400 == y % 400);
}

/// From the first of a month to the first of the next lie exactly that month's days.
pub proof fn lemma_month_span(y: int, m: int)
    requires
        1 <= m <= 12,
    ensures
        day_number(following_month(y, m).0, following_month(y, m).1, 1) - day_number(y, m, 1)
            == month_length(y, m),
{
    if m == 12 {
        lemma_year_length(y);
    }
}

/// Number of days in month `month` of `year`, as the distance from its first day to the first
/// day of the following month.
pub fn days_in_month(year: i32, month: u32) -> (r: u32)
    requires
        MIN_YEAR <= year <= MAX_YEAR,
        1 <= month <= 12,
    ensures
        r == month_length(year as int, month as int),
{
    let (next_year, next_month): (i32, u32) = if month == 12 {
        (year + 1, 1)
    } else {
        (year, month + 1)
    };
    proof {
        lemma_month_span(year as int, month as int);
    }
    let span = days_between(year, month, 1, next_year, next_month, 1);
    span as u32
}

/// Days that the first of month `(y, m)` lies after the Monday that starts its week.
pub open spec fn first_weekday(y: int, m: int) -> int {
    weekday_from_monday(day_number(y, m, 1))
}

/// Position in the week, Monday being 0, of the day with number `n` (day 0 was a Saturday).
pub open spec fn weekday_from_monday(n: int) -> int {
    (n + 5) % 7
}

/// What cell `k` of the six-week grid of month `(y, m)` shows: the day of the month, or 0 where
/// the cell lies before the first or after the last day.
pub open spec fn grid_cell(y: int, m: int, k: int) -> int {
    let offset = first_weekday(y, m);
    if offset <= k < offset + month_length(y, m) {
        k - offset + 1
    } else {
        0
    }
}

/// Relies on chrono's `NaiveDate::from_ymd_opt`, `Datelike::weekday` and
/// `Weekday::num_days_from_monday`: the weekday of a date of the proleptic Gregorian calendar,
/// Monday counted as 0.
#[verifier::external_body]
fn weekday_of(y: i32, m: u32, d: u32) -> (r: u32)
    requires
        in_chrono_range(y as int, m as int, d as int),
    ensures
        r == weekday_from_monday(day_number(y as int, m as int, d as int)),
{
    let date = chrono::NaiveDate::from_ymd_opt(y, m, d).unwrap();
    chrono::Datelike::weekday(&date).num_days_from_monday()
}

/// A day of the calendar: the viewed year and month, and the selected day within that month.
#[derive(Clone, Copy, Debug, PartialEq, Eq, Structural)]
pub struct CalendarDate {
    pub year: i32,
    pub month: u32,
    pub day: u32,
}

impl View for CalendarDate {
    type V = (int, int, int);

    open spec fn view(&self) -> (int, int, int) {
        (self.year as int, self.month as int, self.day as int)
    }
}

impl CalendarDate {
    /// The date exists and its year is supported.
    pub open spec fn wf(&self) -> bool {
        valid_date(self@)
    }

    /// The date may move forward by a day or a week without leaving the supported years.
    pub open spec fn can_advance(&self) -> bool {
        self.year < MAX_YEAR
    }

    /// The date may move back by a day or a week without leaving the supported years.
    pub open spec fn can_retreat(&self) -> bool {
        self.year > MIN_YEAR
    }

    /// The date `year`-`month`-`day`, if it exists and its year is supported.
    pub fn new(year: i32, month: u32, day: u32) -> (r: Option<CalendarDate>)
        ensures
            r is Some <==> valid_date((year as int, month as int, day as int)),
            r matches Some(d) ==> d.year == year && d.month == month && d.day == day,
    {
        if year < MIN_YEAR || year > MAX_YEAR || month < 1 || month > 12 || day < 1 {
            return None;
        }
        if day > days_in_month(year, month) {
            None
        } else {
            Some(CalendarDate { year, month, day })
        }
    }

    /// Number of days of the viewed month.
    pub fn days_in_month(&self) -> (r: u32)
        requires
            self.wf(),
        ensures
            r == month_length(self.year as int, self.month as int),
    {
        days_in_month(self.year, self.month)
    }

    /// The viewed month laid out as six weeks of seven days starting on Monday: each cell
    /// holds its day of the month, or 0 where the month has no day.
    pub fn month_grid(&self) -> (r: Vec<u32>)
        requires
            self.wf(),
        ensures
            r@.len() == 42,
            forall|k: int| 0 <= k < 42 ==> r@[k] == grid_cell(self.year as int, self.month as int, k),
    {
        let offset = weekday_of(self.year, self.month, 1);
        let days = self.days_in_month();
        let mut cells: Vec<u32> = Vec::new();
        let mut k: u32 = 0;
        while k < 42
            invariant
                k <= 42,
                offset as int == first_weekday(self.year as int, self.month as int),
                offset < 7,
                days as int == month_length(self.year as int, self.month as int),
                cells@.len() == k,
                forall|j: int| 0 <= j < k ==> cells@[j] == grid_cell(self.year as int, self.month as int, j),
            decreases 42 - k,
        {
            if offset <= k && k < offset + days {
                cells.push(k - offset + 1);
            } else {
                cells.push(0);
            }
            k += 1;
        }
        cells
    }

    /// The following day.
    pub fn next_day(&self) -> (r: CalendarDate)
        requires
            self.wf(),
            self.can_advance(),
        ensures
            r@ == next_day_of(self@),
            r.wf(),
    {
        let max_days = self.days_in_month();
        if self.day + 1 > max_days {
            if self.month == 12 {
                CalendarDate { year: self.year + 1, month: 1, day: 1 }
            } else {
                CalendarDate { year: self.year, month: self.month + 1, day: 1 }
            }
        } else {
            CalendarDate { year: self.year, month: self.month, day: self.day + 1 }
        }
    }

    /// The preceding day.
    pub fn previous_day(&self) -> (r: CalendarDate)
        requires
            self.wf(),
            self.can_retreat(),
        ensures
            r@ == previous_day_of(self@),
            r.wf(),
    {
        if self.day - 1 < 1 {
            let (year, month): (i32, u32) = if self.month == 1 {
                (self.year - 1, 12)
            } else {
                (self.year, self.month - 1)
            };
            let day = days_in_month(year, month);
            CalendarDate { year, month, day }
        } else {
            CalendarDate { year: self.year, month: self.month, day: self.day - 1 }
        }
    }

    /// The day a week later; past the month's end the overshoot carries into the next month.
    pub fn next_week(&self) -> (r: CalendarDate)
        requires
            self.wf(),
            self.can_advance(),
        ensures
            r@ == next_week_of(self@),
            r.wf(),
    {
        let max_days = self.days_in_month();
        let day = self.day + 7;
        if day > max_days {
            if self.month == 12 {
                CalendarDate { year: self.year + 1, month: 1, day: day - max_days }
            } else {
                CalendarDate { year: self.year, month: self.month + 1, day: day - max_days }
            }
        } else {
            CalendarDate { year: self.year, month: self.month, day }
        }
    }

    /// The day a week earlier; before the 1st the shortfall is counted back from the end of
    /// the preceding month.
    pub fn previous_week(&self) -> (r: CalendarDate)
        requires
            self.wf(),
            self.can_retreat(),
        ensures
            r@ == previous_week_of(self@),
            r.wf(),
    {
        let minus_week: i32 = self.day as i32 - 7;
        if minus_week < 1 {
            let (year, month): (i32, u32) = if self.month == 1 {
                (self.year - 1, 12)
            } else {
                (self.year, self.month - 1)
            };
            let max_days = days_in_month(year, month) as i32;
            CalendarDate { year, month, day: (max_days + minus_week) as u32 }
        } else {
            CalendarDate { year: self.year, month: self.month, day: minus_week as u32 }
        }
    }
}

/// Going one day forward and then one day back returns to the same date.
pub proof fn lemma_previous_day_undoes_next_day(d: (int, int, int))
    requires
        valid_date(d),
        d.0 < MAX_YEAR,
    ensures
        previous_day_of(next_day_of(d)) == d,
{
}

/// Away from a month boundary a week forward and a week back undo each other, in either order.
pub proof fn lemma_weeks_undo_within_month(d: (int, int, int))
    requires
        valid_date(d),
    ensures
        d.2 + 7 <= month_length(d.0, d.1) ==> previous_week_of(next_week_of(d)) == d,
        d.2 - 7 >= 1 ==> next_week_of(previous_week_of(d)) == d,
{
}

/// The date reached from `d` after `n` steps of one day forward.
pub open spec fn days_later(d: (int, int, int), n: nat) -> (int, int, int)
    decreases n,
{
    if n == 0 {
        d
    } else {
        days_later(next_day_of(d), (n - 1) as nat)
    }
}

proof fn lemma_days_later_add(d: (int, int, int), a: nat, b: nat)
    ensures
        days_later(d, a + b) == days_later(days_later(d, a), b),
    decreases a,
{
    if a > 0 {
        lemma_days_later_add(next_day_of(d), (a - 1) as nat, b);
        assert((a + b - 1) as nat == ((a - 1) as nat + b) as nat);
    }
}

proof fn lemma_days_later_in_month(y: int, m: int, k: nat)
    requires
        1 <= m <= 12,
        k < month_length(y, m),
    ensures
        days_later((y, m, 1int), k) == (y, m, 1 + k as int),
    decreases k,
{
    if k > 0 {
        lemma_days_later_in_month(y, m, (k - 1) as nat);
        lemma_days_later_add((y, m, 1int), (k - 1) as nat, 1);
        assert(days_later((y, m, k as int), 1) == days_later(next_day_of((y, m, k as int)), 0));
    }
}

proof fn lemma_days_later_month(y: int, m: int)
    requires
        1 <= m <= 12,
    ensures
        days_later((y, m, 1int), month_length(y, m) as nat) == (following_month(y, m).0,
            following_month(y, m).1, 1int),
{
    let n = month_length(y, m);
    lemma_days_later_in_month(y, m, (n - 1) as nat);
    lemma_days_later_add((y, m, 1int), (n - 1) as nat, 1);
    assert(days_later((y, m, n), 1) == days_later(next_day_of((y, m, n)), 0));
}

proof fn lemma_days_later_to_month(y: int, m: int)
    requires
        1 <= m <= 12,
    ensures
        days_later((y, 1int, 1int), days_before_month(y, m) as nat) == (y, m, 1int),
    decreases m,
{
    if m > 1 {
        lemma_days_later_to_month(y, m - 1);
        lemma_days_later_month(y, m - 1);
        lemma_days_later_add(
            (y, 1int, 1int),
            days_before_month(y, m - 1) as nat,
            month_length(y, m - 1) as nat,
        );
        assert(days_before_month(y, m) == days_before_month(y, m - 1) + month_length(y, m - 1));
    } else {
        assert(days_later((y, 1int, 1int), 0) == (y, 1int, 1int));
    }
}

/// Stepping one day forward as many times as year `y` has days leads from its January 1 to the
/// January 1 of the following year.
pub proof fn lemma_year_of_next_days(y: int)
    ensures
        days_later((y, 1int, 1int), (365 + leap_days(y)) as nat) == (y + 1, 1int, 1int),
{
    lemma_days_later_to_month(y, 12);
    lemma_days_later_month(y, 12);
    lemma_days_later_add((y, 1int, 1int), days_before_month(y, 12) as nat, 31);
    assert(days_before_month(y, 12) + 31 == 365 + leap_days(y));
}

} // verus!
