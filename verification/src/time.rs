//! Calendar dates and capture timestamps as plain numbers, their order, and
//! the date label that headings and navigation show.

use vstd::prelude::*;
use crate::text::{push_zero_padded, zero_padded};

verus! {

/// A calendar date, without time zone.
#[derive(Clone, Copy, Debug, PartialEq, Eq, Structural)]
pub struct Date {
    pub year: i32,
    pub month: u32,
    pub day: u32,
}

/// A local wall-clock instant: a date, the second within that day, and the
/// nanosecond within that second (one thousand million or more during a leap
/// second).
#[derive(Clone, Copy, Debug, PartialEq, Eq, Structural)]
pub struct Timestamp {
    pub date: Date,
    pub second_of_day: u32,
    pub nanosecond: u32,
}

/// The sign that a year outside `0..=9999` is written with.
pub open spec fn year_sign(year: int) -> Seq<char> {
    if 0 <= year <= 9999 {
        Seq::empty()
    } else if year < 0 {
        seq!['-']
    } else {
        seq!['+']
    }
}

/// A year as the date label writes it: four digits, and a sign in front of a
/// year that four digits cannot hold or that is negative.
pub open spec fn year_text(year: int) -> Seq<char> {
    year_sign(year) + zero_padded((if year < 0 { -year } else { year }) as nat, 4)
}

impl Date {
    /// Strictly earlier in the calendar.
    pub open spec fn before(self, other: Date) -> bool {
        self.year < other.year || (self.year == other.year && (self.month < other.month || (
        self.month == other.month && self.day < other.day)))
    }

    /// The label `YYYY-MM-DD`.
    pub open spec fn label(self) -> Seq<char> {
        year_text(self.year as int) + seq!['-'] + zero_padded(self.month as nat, 2) + seq!['-']
            + zero_padded(self.day as nat, 2)
    }

    /// Whether `self` is strictly earlier than `other`.
    pub fn is_before(&self, other: &Date) -> (r: bool)
        ensures
            r == self.before(*other),
    {
        self.year < other.year || (self.year == other.year && (self.month < other.month || (
        self.month == other.month && self.day < other.day)))
    }

    /// Appends the label of this date to `out`.
    pub fn push_label(&self, out: &mut String)
        ensures
            final(out)@ == old(out)@ + self.label(),
    {
        let year: i64 = self.year as i64;
        if year < 0 {
            out.append("-");
        } else if year > 9999 {
            out.append("+");
        }
        proof {
            reveal_strlit("-");
            reveal_strlit("+");
            assert(out@ =~= old(out)@ + year_sign(self.year as int));
        }
        let magnitude: u64 = if year < 0 {
            (-year) as u64
        } else {
            year as u64
        };
        push_zero_padded(out, magnitude, 4);
        out.append("-");
        push_zero_padded(out, self.month as u64, 2);
        out.append("-");
        push_zero_padded(out, self.day as u64, 2);
        proof {
            assert(out@ =~= old(out)@ + self.label());
        }
    }

    /// The label of this date as a new string.
    pub fn to_label(&self) -> (r: String)
        ensures
            r@ == self.label(),
    {
        let mut out = String::new();
        self.push_label(&mut out);
        proof {
            assert(out@ =~= self.label());
        }
        out
    }
}

impl Timestamp {
    /// Strictly earlier: by date, then by second of the day, then by nanosecond.
    pub open spec fn before(self, other: Timestamp) -> bool {
        self.date.before(other.date) || (self.date == other.date && (self.second_of_day
            < other.second_of_day || (self.second_of_day == other.second_of_day && self.nanosecond
            < other.nanosecond)))
    }

    /// Whether `self` is strictly earlier than `other`.
    pub fn is_before(&self, other: &Timestamp) -> (r: bool)
        ensures
            r == self.before(*other),
    {
        self.date.is_before(&other.date) || (self.date == other.date && (self.second_of_day
            < other.second_of_day || (self.second_of_day == other.second_of_day && self.nanosecond
            < other.nanosecond)))
    }
}

} // verus!
