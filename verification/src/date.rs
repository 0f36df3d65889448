use vstd::prelude::*;

verus! {

/// The text that the `time` crate prints for the day with the given Julian day
/// number, such as `2024-01-02`; `None` for a number that lies outside the days
/// the crate can represent.
pub uninterp spec fn calendar_text(julian_day: int) -> Option<Seq<char>>;

/// The Julian day number of the day that the `time` crate reads from `text`
/// under the format description `format`; `None` where either is rejected.
pub uninterp spec fn calendar_day(text: Seq<char>, format: Seq<char>) -> Option<int>;

/// Calls `time::Date::from_julian_day` and prints the date it gives with its
/// `Display` impl. Trusted: the result is `calendar_text` of the argument.
#[verifier::external_body]
fn print_julian_day(julian_day: i32) -> (r: Option<String>)
    ensures
        r matches Some(text) ==> calendar_text(julian_day as int) == Some(text@),
        r is None ==> calendar_text(julian_day as int) is None,
{
    match time::Date::from_julian_day(julian_day) {
        Ok(date) => Some(date.to_string()),
        Err(_) => None,
    }
}

/// Calls `time::format_description::parse` on `format` and `time::Date::parse`
/// on `text`, and takes the Julian day number of the date read. Trusted: the
/// result is `calendar_day` of the two arguments, and a day that was read is
/// a day that the crate can print.
#[verifier::external_body]
fn read_julian_day(text: &str, format: &str) -> (r: Option<i32>)
    ensures
        r matches Some(day) ==> calendar_day(text@, format@) == Some(day as int),
        r matches Some(day) ==> calendar_text(day as int) is Some,
        r is None ==> calendar_day(text@, format@) is None,
{
    match time::format_description::parse(format) {
        Ok(items) => match time::Date::parse(text, &items) {
            Ok(date) => Some(date.to_julian_day()),
            Err(_) => None,
        },
        Err(_) => None,
    }
}

/// A calendar day, held as its Julian day number so that the order of days is
/// the order of integers.
#[derive(Clone, Copy, Debug, PartialEq, Eq, Hash, Structural)]
pub struct Date {
    julian_day: i32,
}

impl Date {
    /// The Julian day number of this day.
    pub closed spec fn day_number(self) -> int {
        self.julian_day as int
    }

    /// Every `Date` is a day of the calendar: it has a printed form.
    #[verifier::type_invariant]
    pub open spec fn on_calendar(self) -> bool {
        calendar_text(self.day_number()) is Some
    }

    /// The format in which days are written in file names and records.
    pub open spec fn spec_format() -> Seq<char> {
        "[year]-[month]-[day]"@
    }

    /// The printed form of this day, `year-month-day`.
    pub open spec fn spec_text(self) -> Seq<char> {
        calendar_text(self.day_number()).unwrap()
    }

    /// The day with the given Julian day number, if the calendar has it.
    pub fn from_julian_day(julian_day: i32) -> (r: Option<Date>)
        ensures
            r is Some == calendar_text(julian_day as int) is Some,
            r matches Some(date) ==> date.day_number() == julian_day,
    {
        match print_julian_day(julian_day) {
            Some(_) => Some(Date { julian_day }),
            None => None,
        }
    }

    pub fn to_julian_day(&self) -> (r: i32)
        ensures
            r == self.day_number(),
            calendar_text(r as int) is Some,
    {
        proof {
            use_type_invariant(self);
        }
        self.julian_day
    }

    /// The day that a text states, written as `year-month-day`.
    pub open spec fn spec_parse(text: Seq<char>) -> Option<int> {
        calendar_day(text, Self::spec_format())
    }

    /// Reads a day written as `year-month-day`.
    pub fn parse(text: &str) -> (r: Option<Date>)
        ensures
            match r {
                Some(date) => Self::spec_parse(text@) == Some(date.day_number()),
                None => Self::spec_parse(text@) is None,
            },
    {
        match read_julian_day(text, "[year]-[month]-[day]") {
            Some(day) => Date::from_julian_day(day),
            None => None,
        }
    }

    /// Writes the day as `year-month-day`.
    pub fn text(&self) -> (r: String)
        ensures
            r@ == self.spec_text(),
    {
        proof {
            use_type_invariant(self);
        }
        match print_julian_day(self.julian_day) {
            Some(text) => text,
            None => String::new(),
        }
    }

    pub open spec fn spec_is_after(self, other: Date) -> bool {
        self.day_number() > other.day_number()
    }

    /// Whether this day is later than `other`.
    pub fn is_after(&self, other: &Date) -> (r: bool)
        ensures
            r == self.spec_is_after(*other),
    {
        self.julian_day > other.julian_day
    }
}

} // verus!
