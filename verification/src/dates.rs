//! Dates given on the command line (`YYYY-MM-DD`), parsed with chrono.

use vstd::prelude::*;
use chrono::Datelike;

verus! {

/// A calendar date: year, month (1..=12), day (1..=31).
#[derive(PartialEq, Eq, Structural, Clone, Copy, Debug)]
pub struct DateParts {
    pub year: i32,
    pub month: u32,
    pub day: u32,
}

/// What `str::parse::<chrono::NaiveDate>` gives for a text: the date's year, month
/// and day, or the text of its parse error.
pub uninterp spec fn naive_date_parse(s: Seq<char>) -> Result<(i32, u32, u32), Seq<char>>;

/// Parses a date with `chrono::NaiveDate`'s `FromStr`, giving the date's parts or
/// the parse error's message.
#[verifier::external_body]
fn parse_naive_date(s: &str) -> (r: Result<DateParts, String>)
    ensures
        match r {
            Ok(d) => naive_date_parse(s@) == Ok::<(i32, u32, u32), Seq<char>>((d.year, d.month, d.day)),
            Err(m) => naive_date_parse(s@) == Err::<(i32, u32, u32), Seq<char>>(m@),
        },
{
    match s.parse::<chrono::NaiveDate>() {
        Ok(d) => Ok(DateParts { year: d.year(), month: d.month(), day: d.day() }),
        Err(e) => Err(e.to_string()),
    }
}

/// Which flag a date came from; it decides the wording of the error.
#[derive(PartialEq, Eq, Structural, Clone, Copy, Debug)]
pub enum DateFlag {
    /// `--target-date` of a milestone.
    MilestoneDate,
    /// `--start-date` of a project.
    StartDate,
    /// `--target-date` of a project or initiative.
    TargetDate,
}

/// The start of the message for a date that does not parse.
pub open spec fn date_error_prefix(flag: DateFlag) -> Seq<char> {
    match flag {
        DateFlag::MilestoneDate => "Invalid date format (expected YYYY-MM-DD): "@,
        DateFlag::StartDate => "Invalid start-date (expected YYYY-MM-DD): "@,
        DateFlag::TargetDate => "Invalid target-date (expected YYYY-MM-DD): "@,
    }
}

/// An optional date flag: nothing when absent; its date when it parses; otherwise
/// an error that quotes chrono's message.
pub fn parse_date_flag(flag: DateFlag, value: &Option<String>) -> (r: Result<Option<DateParts>, String>)
    ensures
        value is None ==> r == Ok::<Option<DateParts>, String>(None),
        value matches Some(s) ==> match naive_date_parse(s@) {
            Ok(t) => r matches Ok(Some(d)) && (d.year, d.month, d.day) == t,
            Err(m) => r matches Err(e) && e@ == date_error_prefix(flag) + m,
        },
{
    match value {
        None => Ok(None),
        Some(s) => match parse_naive_date(s.as_str()) {
            Ok(d) => Ok(Some(d)),
            Err(m) => {
                let mut e = match flag {
                    DateFlag::MilestoneDate => String::from_str("Invalid date format (expected YYYY-MM-DD): "),
                    DateFlag::StartDate => String::from_str("Invalid start-date (expected YYYY-MM-DD): "),
                    DateFlag::TargetDate => String::from_str("Invalid target-date (expected YYYY-MM-DD): "),
                };
                e.append(m.as_str());
                Err(e)
            },
        },
    }
}

} // verus!
