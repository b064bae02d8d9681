//! Calendar days and the file of each: the log of a day is the file
//! `YYYY-MM-DD.txt` in the data root, and no two days share a file.

use crate::root::{data_root, join_path, joined, share_dir};
use chrono::Datelike;
use vstd::prelude::*;

verus! {

/// The first year that a date can have.
pub const MIN_YEAR: i32 = -262143i32;

/// The last year that a date can have.
pub const MAX_YEAR: i32 = 262142i32;

/// The leap years of the Gregorian calendar, carried back before its
/// introduction and before the year 1.
pub open spec fn is_leap_year(year: int) -> bool {
    year % 4 == 0 && (year % 100 != 0 || year % 400 == 0)
}

/// The number of days of a month.
pub open spec fn days_in_month(year: int, month: int) -> int {
    if month == 2 {
        if is_leap_year(year) {
            29
        } else {
            28
        }
    } else if month == 4 || month == 6 || month == 9 || month == 11 {
        30
    } else {
        31
    }
}

/// Whether there is such a day in the calendar, in a year that a date can
/// have.
pub open spec fn is_calendar_date(year: int, month: int, day: int) -> bool {
    &&& MIN_YEAR <= year <= MAX_YEAR
    &&& 1 <= month <= 12
    &&& 1 <= day <= days_in_month(year, month)
}

/// The character of one decimal digit.
pub open spec fn digit(value: int) -> char {
    if value == 0 {
        '0'
    } else if value == 1 {
        '1'
    } else if value == 2 {
        '2'
    } else if value == 3 {
        '3'
    } else if value == 4 {
        '4'
    } else if value == 5 {
        '5'
    } else if value == 6 {
        '6'
    } else if value == 7 {
        '7'
    } else if value == 8 {
        '8'
    } else {
        '9'
    }
}

/// A number in decimal digits, without leading zeros.
pub open spec fn decimal(value: nat) -> Seq<char>
    decreases value,
{
    if value < 10 {
        seq![digit(value as int)]
    } else {
        decimal(value / 10).push(digit((value % 10) as int))
    }
}

/// A number in decimal digits, with zeros before it where it has fewer than
/// `width` digits.
pub open spec fn zero_padded(value: nat, width: nat) -> Seq<char> {
    let digits = decimal(value);
    if digits.len() >= width {
        digits
    } else {
        Seq::new((width - digits.len()) as nat, |i: int| '0') + digits
    }
}

/// The year of an ISO 8601 date: four digits for the years 0 to 9999; a
/// sign and at least four digits for every other year.
pub open spec fn year_text(year: int) -> Seq<char> {
    if 0 <= year <= 9999 {
        zero_padded(year as nat, 4)
    } else if year > 9999 {
        seq!['+'] + zero_padded(year as nat, 4)
    } else {
        seq!['-'] + zero_padded((-year) as nat, 4)
    }
}

/// The two digits of a month or of a day of the month.
pub open spec fn two_digits(value: int) -> Seq<char> {
    seq![digit(value / 10), digit(value % 10)]
}

/// The ISO 8601 form of a date, `YYYY-MM-DD`.
pub open spec fn iso_date(year: int, month: int, day: int) -> Seq<char> {
    year_text(year) + seq!['-'] + two_digits(month) + seq!['-'] + two_digits(day)
}

/// `chrono::Local::now`, then `date_naive` and the three fields of the
/// date: today's date where this machine stands, by its clock and its time
/// zone. Trusted: that the fields are those of a day of the calendar, which
/// is all that can be said of a clock's answer. It panics where the clock
/// stands before 1970.
#[verifier::external_body]
fn local_date() -> (date: (i32, u32, u32))
    ensures
        is_calendar_date(date.0 as int, date.1 as int, date.2 as int),
{
    let today = chrono::Local::now().date_naive();
    (today.year(), today.month(), today.day())
}

/// `chrono::NaiveDate::from_ymd_opt`, then `format` with `%Y-%m-%d`.
/// Trusted: that chrono takes exactly the days of the calendar in the years
/// from `MIN_YEAR` to `MAX_YEAR`, and that it writes the year with four
/// digits, or with a sign and at least four where it lies outside 0 to 9999,
/// and month and day with two digits each, `-` between the three.
#[verifier::external_body]
fn iso_text(year: i32, month: u32, day: u32) -> (text: Option<String>)
    ensures
        text is Some <==> is_calendar_date(year as int, month as int, day as int),
        text matches Some(written) ==> written@ == iso_date(year as int, month as int, day as int),
{
    match chrono::NaiveDate::from_ymd_opt(year, month, day) {
        Some(date) => Some(date.format("%Y-%m-%d").to_string()),
        None => None,
    }
}

/// Tells whether `year` is a leap year.
pub fn leap_year(year: i32) -> (leap: bool)
    ensures
        leap == is_leap_year(year as int),
{
    // 2_147_484_000 is a multiple of 400 that lifts every `i32` above zero.
    let lifted: i64 = year as i64 + 2_147_484_000i64;
    assert(lifted % 4 == (year as int) % 4 && lifted % 100 == (year as int) % 100 && lifted % 400
        == (year as int) % 400);
    lifted % 4 == 0 && (lifted % 100 != 0 || lifted % 400 == 0)
}

/// The number of days of the month `month` of `year`.
pub fn month_length(year: i32, month: u32) -> (days: u32)
    ensures
        days == days_in_month(year as int, month as int),
{
    if month == 2 {
        if leap_year(year) {
            29
        } else {
            28
        }
    } else if month == 4 || month == 6 || month == 9 || month == 11 {
        30
    } else {
        31
    }
}

/// A day of the calendar.
#[derive(Clone, Copy, Debug, PartialEq, Eq, Structural)]
pub struct LogDate {
    year: i32,
    month: u32,
    day: u32,
}

impl LogDate {
    #[verifier::type_invariant]
    spec fn in_calendar(self) -> bool {
        is_calendar_date(self.year as int, self.month as int, self.day as int)
    }

    /// The year.
    pub closed spec fn year_of(self) -> int {
        self.year as int
    }

    /// The month, 1 to 12.
    pub closed spec fn month_of(self) -> int {
        self.month as int
    }

    /// The day of the month, from 1.
    pub closed spec fn day_of(self) -> int {
        self.day as int
    }

    /// Whether this is a day of the calendar. Every date that this library
    /// hands out is.
    pub open spec fn wf(self) -> bool {
        is_calendar_date(self.year_of(), self.month_of(), self.day_of())
    }

    /// The date in ISO 8601 form.
    pub open spec fn iso(self) -> Seq<char> {
        iso_date(self.year_of(), self.month_of(), self.day_of())
    }

    /// The name of the file that holds the log of this day.
    pub open spec fn file_name(self) -> Seq<char> {
        self.iso() + ".txt"@
    }

    /// The path of the log of this day in the data root `root`.
    pub open spec fn path_in(self, root: Seq<char>) -> Seq<char> {
        joined(root, self.file_name())
    }

    /// The date with these fields, where there is such a day.
    pub fn new(year: i32, month: u32, day: u32) -> (date: Option<LogDate>)
        ensures
            date is Some <==> is_calendar_date(year as int, month as int, day as int),
            date matches Some(made) ==> made.wf() && made.year_of() == year && made.month_of()
                == month && made.day_of() == day,
    {
        if year < MIN_YEAR || year > MAX_YEAR || month < 1 || month > 12 || day < 1 {
            None
        } else if day > month_length(year, month) {
            None
        } else {
            Some(LogDate { year, month, day })
        }
    }

    /// Today's date in the local time zone of this machine.
    pub fn today() -> (date: LogDate)
        ensures
            date.wf(),
    {
        let (year, month, day) = local_date();
        LogDate { year, month, day }
    }

    /// The year.
    pub fn year(&self) -> (year: i32)
        ensures
            self.wf(),
            year == self.year_of(),
    {
        proof {
            use_type_invariant(self);
        }
        self.year
    }

    /// The month, 1 to 12.
    pub fn month(&self) -> (month: u32)
        ensures
            self.wf(),
            month == self.month_of(),
            1 <= month <= 12,
    {
        proof {
            use_type_invariant(self);
        }
        self.month
    }

    /// The day of the month, from 1.
    pub fn day(&self) -> (day: u32)
        ensures
            self.wf(),
            day == self.day_of(),
            1 <= day <= 31,
    {
        proof {
            use_type_invariant(self);
        }
        self.day
    }

    /// The date written as `YYYY-MM-DD`.
    pub fn to_iso(&self) -> (text: String)
        ensures
            self.wf(),
            text@ == self.iso(),
    {
        proof {
            use_type_invariant(self);
        }
        iso_text(self.year, self.month, self.day).unwrap()
    }

    /// The name of the file of this day: the date and `.txt`.
    pub fn to_file_name(&self) -> (name: String)
        ensures
            name@ == self.file_name(),
    {
        self.to_iso().concat(".txt")
    }
}

/// The path of the log of the day `date` in the data root `root`.
pub fn path_for_day(root: &str, date: &LogDate) -> (path: String)
    ensures
        path@ == date.path_in(root@),
{
    let name: String = date.to_file_name();
    join_path(root, name.as_str())
}

/// The path of today's log in the data root `root`, today being the day
/// that the local clock shows when this is called.
pub fn path_for_today(root: &str) -> (path: String)
    ensures
        exists|today: LogDate| today.wf() && path@ == #[trigger] today.path_in(root@),
{
    let today: LogDate = LogDate::today();
    let path: String = path_for_day(root, &today);
    assert(today.wf() && path@ == today.path_in(root@));
    path
}

/// The number that a digit stands for.
spec fn digit_value(c: char) -> int {
    if c == '0' {
        0
    } else if c == '1' {
        1
    } else if c == '2' {
        2
    } else if c == '3' {
        3
    } else if c == '4' {
        4
    } else if c == '5' {
        5
    } else if c == '6' {
        6
    } else if c == '7' {
        7
    } else if c == '8' {
        8
    } else {
        9
    }
}

/// The number that a run of digits stands for.
spec fn number(digits: Seq<char>) -> int
    decreases digits.len(),
{
    if digits.len() == 0 {
        0
    } else {
        number(digits.drop_last()) * 10 + digit_value(digits.last())
    }
}

/// The year that the text of a year stands for.
spec fn year_read(text: Seq<char>) -> int {
    if text.len() > 0 && text[0] == '+' {
        number(text.skip(1))
    } else if text.len() > 0 && text[0] == '-' {
        -number(text.skip(1))
    } else {
        number(text)
    }
}

/// The decimal digits of a number read back give the number; none of them
/// is a sign.
proof fn lemma_number_of_decimal(value: nat)
    ensures
        number(decimal(value)) == value,
        decimal(value).len() > 0,
        decimal(value)[0] != '+' && decimal(value)[0] != '-',
    decreases value,
{
    if value < 10 {
        assert(decimal(value).drop_last() =~= Seq::<char>::empty());
        assert(number(Seq::<char>::empty()) == 0);
        assert(digit_value(decimal(value).last()) == value);
    } else {
        lemma_number_of_decimal(value / 10);
        assert(decimal(value).drop_last() =~= decimal(value / 10));
        assert(decimal(value)[0] == decimal(value / 10)[0]);
        assert(digit_value(decimal(value).last()) == value % 10);
    }
}

/// Zeros before a run of digits do not change the number it stands for.
proof fn lemma_number_ignores_zeros(zeros: nat, digits: Seq<char>)
    ensures
        number(Seq::new(zeros, |i: int| '0') + digits) == number(digits),
    decreases digits.len(), zeros,
{
    let padding = Seq::new(zeros, |i: int| '0');
    if digits.len() > 0 {
        lemma_number_ignores_zeros(zeros, digits.drop_last());
        assert((padding + digits).drop_last() =~= padding + digits.drop_last());
    } else if zeros > 0 {
        lemma_number_ignores_zeros((zeros - 1) as nat, digits);
        assert(padding + digits =~= padding);
        assert(padding.drop_last() =~= Seq::new((zeros - 1) as nat, |i: int| '0') + digits);
    } else {
        assert(padding + digits =~= Seq::<char>::empty());
    }
}

/// The padded digits of a number read back give the number; none of them
/// is a sign.
proof fn lemma_number_of_padded(value: nat, width: nat)
    ensures
        number(zero_padded(value, width)) == value,
        zero_padded(value, width).len() > 0,
        zero_padded(value, width)[0] != '+' && zero_padded(value, width)[0] != '-',
{
    lemma_number_of_decimal(value);
    let digits = decimal(value);
    if digits.len() < width {
        lemma_number_ignores_zeros((width - digits.len()) as nat, digits);
    }
}

/// The text of a year read back gives the year.
proof fn lemma_year_read_back(year: int)
    ensures
        year_read(year_text(year)) == year,
        year_text(year).len() > 0,
{
    if 0 <= year <= 9999 {
        lemma_number_of_padded(year as nat, 4);
    } else if year > 9999 {
        lemma_number_of_padded(year as nat, 4);
        assert(year_text(year).skip(1) =~= zero_padded(year as nat, 4));
    } else {
        lemma_number_of_padded((-year) as nat, 4);
        assert(year_text(year).skip(1) =~= zero_padded((-year) as nat, 4));
    }
}

/// The ISO 8601 form tells the date: two dates that are written alike are
/// one date.
pub proof fn lemma_iso_date_tells_the_date(first: LogDate, second: LogDate)
    requires
        first.wf(),
        second.wf(),
        first.iso() == second.iso(),
    ensures
        first == second,
{
    let a = first.iso();
    let b = second.iso();
    let year_a = year_text(first.year_of());
    let year_b = year_text(second.year_of());
    lemma_year_read_back(first.year_of());
    lemma_year_read_back(second.year_of());
    assert(a.len() == year_a.len() + 6);
    assert(b.len() == year_b.len() + 6);
    assert(year_a =~= a.take(a.len() - 6));
    assert(year_b =~= b.take(b.len() - 6));
    assert(two_digits(first.month_of())[0] == a[a.len() - 5]);
    assert(two_digits(first.month_of())[1] == a[a.len() - 4]);
    assert(two_digits(first.day_of())[0] == a[a.len() - 2]);
    assert(two_digits(first.day_of())[1] == a[a.len() - 1]);
    assert(two_digits(second.month_of())[0] == b[b.len() - 5]);
    assert(two_digits(second.month_of())[1] == b[b.len() - 4]);
    assert(two_digits(second.day_of())[0] == b[b.len() - 2]);
    assert(two_digits(second.day_of())[1] == b[b.len() - 1]);
}

/// Each day has a file of its own: in one data root the logs of two
/// different days lie at different paths, so what is recorded on one day is
/// never listed on another.
pub proof fn lemma_days_do_not_share_a_file(root: Seq<char>, first: LogDate, second: LogDate)
    requires
        first.wf(),
        second.wf(),
        first != second,
    ensures
        first.file_name() != second.file_name(),
        first.path_in(root) != second.path_in(root),
{
    let suffix = ".txt"@;
    if first.file_name() == second.file_name() {
        assert(first.iso() =~= first.file_name().take(first.file_name().len() - suffix.len()));
        assert(second.iso() =~= second.file_name().take(second.file_name().len() - suffix.len()));
        lemma_iso_date_tells_the_date(first, second);
    }
    if first.path_in(root) == second.path_in(root) {
        let lead = first.path_in(root).len() - first.file_name().len();
        assert(first.file_name() =~= first.path_in(root).skip(lead));
        assert(second.file_name() =~= second.path_in(root).skip(lead));
    }
}

/// With `XDG_DATA_HOME` set to the directory `dir`, the log of a day is the
/// file `<date>.txt` in `dir`, whatever the home directory is. (A `dir`
/// that ends in `/` brings the separator itself.)
pub proof fn lemma_log_lies_in_xdg_data_home(
    dir: Seq<char>,
    home: Option<Seq<char>>,
    app_name: Seq<char>,
    date: LogDate,
)
    requires
        dir.len() > 0,
        dir.last() != '/',
    ensures
        data_root(Some(dir), home, app_name) == Some(dir),
        date.path_in(dir) == dir + "/"@ + date.iso() + ".txt"@,
{
    reveal_strlit("/");
    assert("/"@ =~= seq!['/']);
    assert(date.path_in(dir) =~= dir + "/"@ + date.iso() + ".txt"@);
}

/// With `XDG_DATA_HOME` unset or empty, the log of a day is the file
/// `<date>.txt` in `.local/share/<app_name>` under the home directory.
/// (A home directory that ends in `/` brings the separator itself, and so
/// does an application name.)
pub proof fn lemma_log_lies_under_home(
    xdg_data_home: Option<Seq<char>>,
    home: Seq<char>,
    app_name: Seq<char>,
    date: LogDate,
)
    requires
        xdg_data_home is None || xdg_data_home->0.len() == 0,
        home.len() > 0,
        home.last() != '/',
        app_name.len() > 0,
        app_name.last() != '/',
    ensures
        data_root(xdg_data_home, Some(home), app_name) == Some(
            home + "/.local/share/"@ + app_name,
        ),
        date.path_in(home + "/.local/share/"@ + app_name) == home + "/.local/share/"@ + app_name
            + "/"@ + date.iso() + ".txt"@,
{
    reveal_strlit("/");
    reveal_strlit(".local/share/");
    reveal_strlit("/.local/share/");
    assert("/"@ =~= seq!['/']);
    assert("/.local/share/"@ =~= seq!['/'] + ".local/share/"@);
    let root = home + "/.local/share/"@ + app_name;
    assert(joined(home, share_dir(app_name)) =~= root);
    assert(root.last() == app_name.last());
    assert(date.path_in(root) =~= root + "/"@ + date.iso() + ".txt"@);
}

/// In the years 0 to 9999 the ISO 8601 form has its fixed width of ten
/// characters.
pub proof fn lemma_iso_date_has_fixed_width(date: LogDate)
    requires
        date.wf(),
        0 <= date.year_of() <= 9999,
    ensures
        date.iso().len() == 10,
{
    let year = date.year_of() as nat;
    reveal_with_fuel(decimal, 5);
    assert(decimal(year).len() <= 4);
}

} // verus!
