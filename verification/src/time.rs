//! The wall clock, and the time of day as the status line shows it:
//! `Wednesday, June 5 | 9:03`.

use crate::decimal::{decimal, push_decimal};
use chrono::{Datelike, Timelike};
use vstd::prelude::*;
use vstd::string::*;

verus! {

/// A day of the week.
#[derive(Debug, Clone, Copy, PartialEq, Eq, Structural)]
pub enum Weekday {
    Monday,
    Tuesday,
    Wednesday,
    Thursday,
    Friday,
    Saturday,
    Sunday,
}

/// What the clock showed at one moment, in local time.
#[derive(Debug, Clone, Copy)]
pub struct ClockReading {
    pub weekday: Weekday,
    /// The month, from 1 for January.
    pub month: u32,
    /// The day of the month, from 1.
    pub day: u32,
    pub hour: u32,
    pub minute: u32,
}

impl Weekday {
    /// The day's English name.
    pub open spec fn name(self) -> Seq<char> {
        match self {
            Weekday::Monday => "Monday"@,
            Weekday::Tuesday => "Tuesday"@,
            Weekday::Wednesday => "Wednesday"@,
            Weekday::Thursday => "Thursday"@,
            Weekday::Friday => "Friday"@,
            Weekday::Saturday => "Saturday"@,
            Weekday::Sunday => "Sunday"@,
        }
    }

    /// The day's English name.
    pub fn label(&self) -> (s: &'static str)
        ensures
            s@ == self.name(),
    {
        match self {
            Weekday::Monday => "Monday",
            Weekday::Tuesday => "Tuesday",
            Weekday::Wednesday => "Wednesday",
            Weekday::Thursday => "Thursday",
            Weekday::Friday => "Friday",
            Weekday::Saturday => "Saturday",
            Weekday::Sunday => "Sunday",
        }
    }
}

/// The short name of the month with the number `month`, from 1 to 12.
pub open spec fn month_name(month: u32) -> Seq<char> {
    if month == 1 {
        "Jan"@
    } else if month == 2 {
        "Feb"@
    } else if month == 3 {
        "Mar"@
    } else if month == 4 {
        "Apr"@
    } else if month == 5 {
        "May"@
    } else if month == 6 {
        "June"@
    } else if month == 7 {
        "July"@
    } else if month == 8 {
        "Aug"@
    } else if month == 9 {
        "Sept"@
    } else if month == 10 {
        "Oct"@
    } else if month == 11 {
        "Nov"@
    } else {
        "Dec"@
    }
}

/// A minute in two digits, with a zero in front of one below ten.
pub open spec fn minute_text(minute: u32) -> Seq<char> {
    if minute < 10 {
        seq!['0'] + decimal(minute as nat)
    } else {
        decimal(minute as nat)
    }
}

impl ClockReading {
    /// Whether the month is one of the twelve.
    pub open spec fn has_month(self) -> bool {
        1 <= self.month <= 12
    }

    /// Whether every field is in the range that a clock can show.
    pub open spec fn wf(self) -> bool {
        &&& self.has_month()
        &&& 1 <= self.day <= 31
        &&& self.hour <= 23
        &&& self.minute <= 59
    }

    /// The reading as it is displayed: the weekday's name, the month's short
    /// name and the day, then the hour and the minute in two digits.
    pub open spec fn display(self) -> Seq<char> {
        self.weekday.name() + ", "@ + month_name(self.month) + " "@ + decimal(self.day as nat)
            + " | "@ + decimal(self.hour as nat) + ":"@ + minute_text(self.minute)
    }
}

/// The short name of a month.
fn month_label(month: u32) -> (s: &'static str)
    requires
        1 <= month <= 12,
    ensures
        s@ == month_name(month),
{
    match month {
        1 => "Jan",
        2 => "Feb",
        3 => "Mar",
        4 => "Apr",
        5 => "May",
        6 => "June",
        7 => "July",
        8 => "Aug",
        9 => "Sept",
        10 => "Oct",
        11 => "Nov",
        _ => "Dec",
    }
}

/// Reads the machine's clock with `chrono::Local::now` and takes the fields
/// of the moment it gives, in local time, with `Datelike::weekday`,
/// `Datelike::month`, `Datelike::day`, `Timelike::hour` and
/// `Timelike::minute`. Nothing is claimed of which moment it is. What is
/// claimed is what chrono documents of the fields: the month is from 1 to
/// 12, the day from 1 to 31, the hour from 0 to 23 and the minute from 0 to
/// 59. `Local::now` stops the program where the machine's clock is set
/// before 1970.
#[verifier::external_body]
fn read_clock() -> (now: ClockReading)
    ensures
        now.wf(),
{
    let now = chrono::Local::now();
    let weekday = match now.weekday() {
        chrono::Weekday::Mon => Weekday::Monday,
        chrono::Weekday::Tue => Weekday::Tuesday,
        chrono::Weekday::Wed => Weekday::Wednesday,
        chrono::Weekday::Thu => Weekday::Thursday,
        chrono::Weekday::Fri => Weekday::Friday,
        chrono::Weekday::Sat => Weekday::Saturday,
        chrono::Weekday::Sun => Weekday::Sunday,
    };
    let (month, day, hour, minute) = (now.month(), now.day(), now.hour(), now.minute());
    ClockReading { weekday, month, day, hour, minute }
}

/// A clock reading as text: `Wednesday, June 5 | 9:03`. Day and hour are
/// written as they are, the minute in two digits.
pub fn format_time(reading: &ClockReading) -> (s: String)
    requires
        reading.has_month(),
    ensures
        s@ == reading.display(),
{
    let mut out = String::new();
    out.append(reading.weekday.label());
    out.append(", ");
    out.append(month_label(reading.month));
    out.append(" ");
    push_decimal(&mut out, reading.day as u128);
    out.append(" | ");
    push_decimal(&mut out, reading.hour as u128);
    out.append(":");
    if reading.minute < 10 {
        out.append("0");
    }
    push_decimal(&mut out, reading.minute as u128);
    proof {
        reveal_strlit("0");
        assert(out@ =~= reading.display());
    }
    out
}

/// The local time of day at the moment of the call, as text. Which moment
/// the clock shows is not known beforehand; the text is the display of some
/// reading whose fields are all in range.
pub fn present_time() -> (s: String)
    ensures
        exists|reading: ClockReading| reading.wf() && s@ == #[trigger] reading.display(),
{
    let now = read_clock();
    format_time(&now)
}

} // verus!
