//! What can be wrong with a duration given as text, and how to say so.
//!
//! Every error has a short title and a hint that tells the user what to
//! change. Most errors also name a cause: either a second, more specific
//! title and hint, or the reason why a field is not a number.

use crate::number::NumberError;
use vstd::prelude::*;

verus! {

/// A unit of time that a field of a duration text counts.
#[derive(Clone, Copy, Debug, PartialEq, Eq, Structural)]
pub enum Unit {
    /// Counted by the last field.
    Seconds,
    /// Counted by the field before the seconds.
    Minutes,
    /// Counted by the field before the minutes.
    Hours,
    /// Counted by the field before the hours.
    Days,
}

/// A place in a duration text where a number stands.
#[derive(Clone, Copy, Debug, PartialEq, Eq, Structural)]
pub enum Field {
    /// The digits after the dot of the last field.
    Milliseconds,
    /// The field that counts the given unit.
    Whole(Unit),
}

/// Why a text is not a duration.
#[derive(Clone, Copy, Debug, PartialEq, Eq, Structural)]
pub enum ParseError {
    /// The text is empty.
    MissingParts,
    /// The text has more than four fields.
    TooManyParts,
    /// The seconds field has more than one dot.
    TooManyFractionParts,
    /// A field is no number: it is empty or holds something other than
    /// digits. For the seconds and the milliseconds this is also said of
    /// digits that stand for more than 64 bits hold.
    InvalidNumber { field: Field, cause: NumberError },
    /// The duration would be longer than the longest one once the named unit
    /// is added. For minutes, hours and days this is also said of a field
    /// whose digits alone stand for more than 64 bits hold.
    Overflow { unit: Unit },
    /// A field stands at a position that has no unit.
    InvalidPart,
}

impl Unit {
    /// How many seconds one of this unit lasts.
    pub open spec fn seconds_spec(self) -> nat {
        match self {
            Unit::Seconds => 1,
            Unit::Minutes => 60,
            Unit::Hours => 3600,
            Unit::Days => 86400,
        }
    }

    /// How many seconds one of this unit lasts.
    pub fn seconds(&self) -> (seconds: u64)
        ensures
            seconds == self.seconds_spec(),
    {
        match self {
            Unit::Seconds => 1,
            Unit::Minutes => 60,
            Unit::Hours => 3600,
            Unit::Days => 86400,
        }
    }

    /// The unit of the field at `position`, counted from the right with the
    /// seconds at zero. Only the three positions after the seconds have one
    /// here: the seconds field is read in a way of its own.
    pub open spec fn at_spec(position: nat) -> Result<Unit, ParseError> {
        if position == 1 {
            Ok(Unit::Minutes)
        } else if position == 2 {
            Ok(Unit::Hours)
        } else if position == 3 {
            Ok(Unit::Days)
        } else {
            Err(ParseError::InvalidPart)
        }
    }

    /// The unit of the field at `position`, counted from the right with the
    /// seconds at zero.
    pub fn at(position: usize) -> (unit: Result<Unit, ParseError>)
        ensures
            unit == Unit::at_spec(position as nat),
    {
        if position == 1 {
            Ok(Unit::Minutes)
        } else if position == 2 {
            Ok(Unit::Hours)
        } else if position == 3 {
            Ok(Unit::Days)
        } else {
            Err(ParseError::InvalidPart)
        }
    }
}

impl ParseError {
    /// The short title of the error.
    pub open spec fn title_spec(self) -> Seq<char> {
        match self {
            ParseError::MissingParts
            | ParseError::TooManyParts
            | ParseError::TooManyFractionParts => "Failed to parse the duration"@,
            ParseError::InvalidNumber { field, .. } => match field {
                Field::Milliseconds => "Failed to parse the milliseconds part"@,
                Field::Whole(Unit::Seconds) => "Failed to parse the seconds part"@,
                Field::Whole(Unit::Minutes) => "Failed to parse the minutes part"@,
                Field::Whole(Unit::Hours) => "Failed to parse the hours part"@,
                Field::Whole(Unit::Days) => "Failed to parse the days part"@,
            },
            ParseError::Overflow { .. } => "Duration overflow"@,
            ParseError::InvalidPart => "Invalid duration part"@,
        }
    }

    /// The short title of the error.
    pub fn title(&self) -> (title: &'static str)
        ensures
            title@ == self.title_spec(),
    {
        match self {
            ParseError::MissingParts
            | ParseError::TooManyParts
            | ParseError::TooManyFractionParts => "Failed to parse the duration",
            ParseError::InvalidNumber { field, .. } => match field {
                Field::Milliseconds => "Failed to parse the milliseconds part",
                Field::Whole(Unit::Seconds) => "Failed to parse the seconds part",
                Field::Whole(Unit::Minutes) => "Failed to parse the minutes part",
                Field::Whole(Unit::Hours) => "Failed to parse the hours part",
                Field::Whole(Unit::Days) => "Failed to parse the days part",
            },
            ParseError::Overflow { .. } => "Duration overflow",
            ParseError::InvalidPart => "Invalid duration part",
        }
    }

    /// What the user can do about the error.
    pub open spec fn hint_spec(self) -> Seq<char> {
        match self {
            ParseError::MissingParts
            | ParseError::TooManyParts
            | ParseError::TooManyFractionParts =>
                "Provide the duration in the following format: \"[[[d:]h:]m:]s\""@,
            ParseError::InvalidNumber { field, .. } => match field {
                Field::Milliseconds =>
                    "Make sure to provide a valid number for the milliseconds part"@,
                Field::Whole(Unit::Seconds) =>
                    "Make sure to provide a valid number for the seconds part"@,
                Field::Whole(Unit::Minutes) =>
                    "Make sure to provide a valid number for the minutes part"@,
                Field::Whole(Unit::Hours) =>
                    "Make sure to provide a valid number for the hours part"@,
                Field::Whole(Unit::Days) =>
                    "Make sure to provide a valid number for the days part"@,
            },
            ParseError::Overflow { .. } => "The provided duration is too large to be represented"@,
            ParseError::InvalidPart =>
                "Make sure to provide a valid number for the duration part"@,
        }
    }

    /// What the user can do about the error.
    pub fn hint(&self) -> (hint: &'static str)
        ensures
            hint@ == self.hint_spec(),
    {
        match self {
            ParseError::MissingParts
            | ParseError::TooManyParts
            | ParseError::TooManyFractionParts =>
                "Provide the duration in the following format: \"[[[d:]h:]m:]s\"",
            ParseError::InvalidNumber { field, .. } => match field {
                Field::Milliseconds =>
                    "Make sure to provide a valid number for the milliseconds part",
                Field::Whole(Unit::Seconds) =>
                    "Make sure to provide a valid number for the seconds part",
                Field::Whole(Unit::Minutes) =>
                    "Make sure to provide a valid number for the minutes part",
                Field::Whole(Unit::Hours) =>
                    "Make sure to provide a valid number for the hours part",
                Field::Whole(Unit::Days) =>
                    "Make sure to provide a valid number for the days part",
            },
            ParseError::Overflow { .. } => "The provided duration is too large to be represented",
            ParseError::InvalidPart => "Make sure to provide a valid number for the duration part",
        }
    }

    /// The title of the cause, where the error names one.
    pub open spec fn cause_title_spec(self) -> Option<Seq<char>> {
        match self {
            ParseError::MissingParts => Some("Missing parts"@),
            ParseError::TooManyParts => Some("Too many parts"@),
            ParseError::TooManyFractionParts => Some("Too many parts in seconds.milliseconds"@),
            ParseError::InvalidNumber { cause, .. } => Some(cause.message_spec()),
            ParseError::Overflow { unit } => Some(
                match unit {
                    Unit::Seconds => "Overflow in seconds"@,
                    Unit::Minutes => "Overflow in minutes"@,
                    Unit::Hours => "Overflow in hours"@,
                    Unit::Days => "Overflow in days"@,
                },
            ),
            ParseError::InvalidPart => None,
        }
    }

    /// The title of the cause, where the error names one.
    pub fn cause_title(&self) -> (title: Option<&'static str>)
        ensures
            match title {
                Some(text) => self.cause_title_spec() == Some(text@),
                None => self.cause_title_spec().is_none(),
            },
    {
        match self {
            ParseError::MissingParts => Some("Missing parts"),
            ParseError::TooManyParts => Some("Too many parts"),
            ParseError::TooManyFractionParts => Some("Too many parts in seconds.milliseconds"),
            ParseError::InvalidNumber { cause, .. } => Some(cause.message()),
            ParseError::Overflow { unit } => Some(
                match unit {
                    Unit::Seconds => "Overflow in seconds",
                    Unit::Minutes => "Overflow in minutes",
                    Unit::Hours => "Overflow in hours",
                    Unit::Days => "Overflow in days",
                },
            ),
            ParseError::InvalidPart => None,
        }
    }

    /// What the user can do about the cause, where the cause comes with a
    /// hint of its own.
    pub open spec fn cause_hint_spec(self) -> Option<Seq<char>> {
        match self {
            ParseError::MissingParts => Some(
                "Make sure to provide at least the seconds part of the duration"@,
            ),
            ParseError::TooManyParts => Some(
                "Make sure to provide at most 4 parts for days, hours, minutes, and seconds"@,
            ),
            ParseError::TooManyFractionParts => Some(
                "Make sure to provide at most one dot in the seconds part"@,
            ),
            ParseError::Overflow { .. } => Some(
                "Make sure the value is within a reasonable range"@,
            ),
            ParseError::InvalidNumber { .. } | ParseError::InvalidPart => None,
        }
    }

    /// What the user can do about the cause, where the cause comes with a
    /// hint of its own.
    pub fn cause_hint(&self) -> (hint: Option<&'static str>)
        ensures
            match hint {
                Some(text) => self.cause_hint_spec() == Some(text@),
                None => self.cause_hint_spec().is_none(),
            },
    {
        match self {
            ParseError::MissingParts => Some(
                "Make sure to provide at least the seconds part of the duration",
            ),
            ParseError::TooManyParts => Some(
                "Make sure to provide at most 4 parts for days, hours, minutes, and seconds",
            ),
            ParseError::TooManyFractionParts => Some(
                "Make sure to provide at most one dot in the seconds part",
            ),
            ParseError::Overflow { .. } => Some("Make sure the value is within a reasonable range"),
            ParseError::InvalidNumber { .. } | ParseError::InvalidPart => None,
        }
    }
}

} // verus!
