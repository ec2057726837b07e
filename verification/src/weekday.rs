//! Days of the week as chosen by users when configuring the weekly reset.
use vstd::prelude::*;

verus! {

/// A day of the week, as offered in the schedule command's choice list.
#[derive(Debug, Clone, Copy, PartialEq, Eq, Structural)]
pub enum WeekdayChoice {
    Monday,
    Tuesday,
    Wednesday,
    Thursday,
    Friday,
    Saturday,
    Sunday,
}

/// Number of days since Monday (Monday is 0, Sunday is 6).
pub open spec fn days_from_monday(d: WeekdayChoice) -> nat {
    match d {
        WeekdayChoice::Monday => 0,
        WeekdayChoice::Tuesday => 1,
        WeekdayChoice::Wednesday => 2,
        WeekdayChoice::Thursday => 3,
        WeekdayChoice::Friday => 4,
        WeekdayChoice::Saturday => 5,
        WeekdayChoice::Sunday => 6,
    }
}

/// The day's name, as `{:?}` prints it.
pub open spec fn weekday_name(d: WeekdayChoice) -> Seq<char> {
    match d {
        WeekdayChoice::Monday => "Monday"@,
        WeekdayChoice::Tuesday => "Tuesday"@,
        WeekdayChoice::Wednesday => "Wednesday"@,
        WeekdayChoice::Thursday => "Thursday"@,
        WeekdayChoice::Friday => "Friday"@,
        WeekdayChoice::Saturday => "Saturday"@,
        WeekdayChoice::Sunday => "Sunday"@,
    }
}

impl WeekdayChoice {
    /// The day's name, as `{:?}` prints it.
    pub fn name(&self) -> (s: &'static str)
        ensures
            s@ == weekday_name(*self),
    {
        match self {
            WeekdayChoice::Monday => "Monday",
            WeekdayChoice::Tuesday => "Tuesday",
            WeekdayChoice::Wednesday => "Wednesday",
            WeekdayChoice::Thursday => "Thursday",
            WeekdayChoice::Friday => "Friday",
            WeekdayChoice::Saturday => "Saturday",
            WeekdayChoice::Sunday => "Sunday",
        }
    }

    /// The day's number counted from Monday, as chrono's `num_days_from_monday`.
    pub fn to_chrono_num(&self) -> (n: u32)
        ensures
            n == days_from_monday(*self),
            n < 7,
    {
        match self {
            WeekdayChoice::Monday => 0,
            WeekdayChoice::Tuesday => 1,
            WeekdayChoice::Wednesday => 2,
            WeekdayChoice::Thursday => 3,
            WeekdayChoice::Friday => 4,
            WeekdayChoice::Saturday => 5,
            WeekdayChoice::Sunday => 6,
        }
    }
}

} // verus!
