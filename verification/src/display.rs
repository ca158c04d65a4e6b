//! Writing a duration out for people: days, hours, minutes and seconds.
//!
//! Only whole seconds are shown. A unit is left out while it and every larger
//! unit are zero; once a larger unit is shown, each smaller one is shown too,
//! zero or not. The seconds are always shown.

use crate::duration::{max_nanos, Duration};
use crate::number::{decimal_digits, push_decimal};
use crate::parse::{lemma_parse_in_range, parse_duration_spec};
use vstd::arithmetic::div_mod::lemma_fundamental_div_mod_converse;
use vstd::prelude::*;

verus! {

/// Seconds in one minute.
pub const SECS_PER_MINUTE: u64 = 60;

/// Seconds in one hour.
pub const SECS_PER_HOUR: u64 = 3600;

/// Seconds in one day.
pub const SECS_PER_DAY: u64 = 86400;

/// A number of seconds told in days, hours, minutes and seconds.
#[derive(Clone, Copy, Debug, PartialEq, Eq, Structural)]
pub struct Breakdown {
    pub days: u64,
    pub hours: u64,
    pub minutes: u64,
    pub seconds: u64,
}

impl Breakdown {
    /// Whether the hours, minutes and seconds each stay below the next unit.
    pub open spec fn is_normal(self) -> bool {
        self.hours < 24 && self.minutes < 60 && self.seconds < 60
    }

    /// The number of seconds that the four parts make together.
    pub open spec fn total(self) -> nat {
        self.days as nat * 86400 + self.hours as nat * 3600 + self.minutes as nat * 60
            + self.seconds as nat
    }

    /// The four parts of `total_secs` seconds.
    pub open spec fn of_spec(total_secs: u64) -> Breakdown {
        Breakdown {
            days: total_secs / 86400,
            hours: (total_secs % 86400) / 3600,
            minutes: (total_secs % 3600) / 60,
            seconds: total_secs % 60,
        }
    }

    /// The four parts of `total_secs` seconds.
    pub fn of(total_secs: u64) -> (parts: Breakdown)
        ensures
            parts == Breakdown::of_spec(total_secs),
            parts.is_normal(),
            parts.total() == total_secs,
    {
        proof {
            lemma_breakdown_normal(total_secs);
        }
        Breakdown {
            days: total_secs / SECS_PER_DAY,
            hours: (total_secs % SECS_PER_DAY) / SECS_PER_HOUR,
            minutes: (total_secs % SECS_PER_HOUR) / SECS_PER_MINUTE,
            seconds: total_secs % SECS_PER_MINUTE,
        }
    }

    /// The text of the four parts: each shown unit as its number and its
    /// letter, with a blank between units.
    pub open spec fn text_spec(self) -> Seq<char> {
        let days = if self.days > 0 {
            decimal_digits(self.days as nat) + seq!['d', ' ']
        } else {
            Seq::<char>::empty()
        };
        let hours = if self.hours > 0 || self.days > 0 {
            decimal_digits(self.hours as nat) + seq!['h', ' ']
        } else {
            Seq::<char>::empty()
        };
        let minutes = if self.minutes > 0 || self.hours > 0 || self.days > 0 {
            decimal_digits(self.minutes as nat) + seq!['m', ' ']
        } else {
            Seq::<char>::empty()
        };
        days + hours + minutes + decimal_digits(self.seconds as nat) + seq!['s']
    }

    /// Appends the text of the four parts to `out`.
    pub fn write(&self, out: &mut String)
        ensures
            final(out)@ == old(out)@ + self.text_spec(),
    {
        proof {
            reveal_strlit("d ");
            reveal_strlit("h ");
            reveal_strlit("m ");
            reveal_strlit("s");
        }
        let ghost start = out@;
        if self.days > 0 {
            push_decimal(out, self.days);
            out.append("d ");
        }
        if self.hours > 0 || self.days > 0 {
            push_decimal(out, self.hours);
            out.append("h ");
        }
        if self.minutes > 0 || self.hours > 0 || self.days > 0 {
            push_decimal(out, self.minutes);
            out.append("m ");
        }
        push_decimal(out, self.seconds);
        out.append("s");
        assert(out@ =~= start + self.text_spec());
    }
}

/// The text that shows `total_secs` seconds.
pub open spec fn display_text(total_secs: u64) -> Seq<char> {
    Breakdown::of_spec(total_secs).text_spec()
}

/// Appends to `out` the text that shows `total_secs` seconds.
pub fn write_seconds(out: &mut String, total_secs: u64)
    ensures
        final(out)@ == old(out)@ + display_text(total_secs),
{
    Breakdown::of(total_secs).write(out)
}

/// Every number of seconds is told in normal parts that add up to it.
pub proof fn lemma_breakdown_normal(total_secs: u64)
    ensures
        Breakdown::of_spec(total_secs).is_normal(),
        Breakdown::of_spec(total_secs).total() == total_secs,
{
    let total = total_secs as int;
    let in_day = total % 86400;
    let in_hour = in_day % 3600;
    let in_minute = in_hour % 60;
    assert(total == 86400 * (total / 86400) + in_day);
    assert(in_day == 3600 * (in_day / 3600) + in_hour);
    assert(in_hour == 60 * (in_hour / 60) + in_minute);
    lemma_fundamental_div_mod_converse(
        total,
        3600,
        24 * (total / 86400) + in_day / 3600,
        in_hour,
    );
    lemma_fundamental_div_mod_converse(total, 60, 60 * (total / 3600) + in_hour / 60, in_minute);
}

/// Whatever text a duration was read from, and however its fields were
/// filled, it is shown in normal parts: hours below 24, minutes and seconds
/// below 60, which add up to the whole seconds of what was read.
pub proof fn lemma_parsed_shows_normal(input: Seq<char>)
    requires
        parse_duration_spec(input) is Ok,
    ensures
        ({
            let nanos = parse_duration_spec(input)->Ok_0;
            let shown = Breakdown::of_spec((nanos / 1_000_000_000) as u64);
            &&& nanos <= max_nanos()
            &&& shown.is_normal()
            &&& shown.total() == nanos / 1_000_000_000
            &&& display_text((nanos / 1_000_000_000) as u64) == shown.text_spec()
        }),
{
    lemma_parse_in_range(input);
    let nanos = parse_duration_spec(input)->Ok_0;
    lemma_breakdown_normal((nanos / 1_000_000_000) as u64);
}

/// A duration as it is shown to the user.
#[derive(Clone, Copy, Debug)]
pub struct DurationDisplay(pub Duration);

impl DurationDisplay {
    /// The text of the duration.
    pub open spec fn text_spec(self) -> Seq<char> {
        display_text((self.0@ / 1_000_000_000) as u64)
    }

    /// The text of the duration.
    pub fn to_string(&self) -> (text: String)
        ensures
            text@ == self.text_spec(),
    {
        let mut text = String::new();
        write_seconds(&mut text, self.0.as_secs());
        text
    }
}

} // verus!
