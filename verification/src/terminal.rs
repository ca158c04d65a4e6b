//! What the timer asks of the terminal, as plain values.
//!
//! The timer never touches a terminal itself. It hands out [`TerminalOp`]s,
//! in the order in which they are to be carried out, and whoever drives the
//! timer carries them out. A [`Message`] is a line of text to print, and a
//! [`SystemFailure`] says which part of that work went wrong.

use crate::display::{display_text, write_seconds};
use vstd::prelude::*;
use vstd::string::StringExecFns;

verus! {

/// A line of text that the timer prints. Durations are given in whole seconds.
#[derive(Clone, Copy, Debug, PartialEq, Eq, Structural)]
pub enum Message {
    /// The time that is left.
    Remaining { seconds: u64 },
    /// The status line while the timer is paused.
    PausedLabel,
    /// The help line while the timer is paused.
    PausedHelp,
    /// The farewell after the time has run out.
    Finished,
    /// The farewell after the user has stopped the timer.
    Stopped { remaining: u64, elapsed: u64 },
}

impl Message {
    /// The text of the message.
    pub open spec fn text_spec(self) -> Seq<char> {
        match self {
            Message::Remaining { seconds } => "Remaining time: "@ + display_text(seconds),
            Message::PausedLabel => "PAUSED"@,
            Message::PausedHelp => "Timer is paused. Press 'p' to resume or 'q' to quit."@,
            Message::Finished => "Timer finished!\n"@,
            Message::Stopped { remaining, elapsed } => "Timer stopped by user at "@ + display_text(
                remaining,
            ) + ", after "@ + display_text(elapsed) + ".\n"@,
        }
    }

    /// The text of the message.
    pub fn text(&self) -> (text: String)
        ensures
            text@ == self.text_spec(),
    {
        match self {
            Message::Remaining { seconds } => {
                let mut text = String::from_str("Remaining time: ");
                write_seconds(&mut text, *seconds);
                text
            },
            Message::PausedLabel => String::from_str("PAUSED"),
            Message::PausedHelp => String::from_str(
                "Timer is paused. Press 'p' to resume or 'q' to quit.",
            ),
            Message::Finished => String::from_str("Timer finished!\n"),
            Message::Stopped { remaining, elapsed } => {
                let mut text = String::from_str("Timer stopped by user at ");
                write_seconds(&mut text, *remaining);
                text.append(", after ");
                write_seconds(&mut text, *elapsed);
                text.append(".\n");
                text
            },
        }
    }
}

/// One thing to do to the terminal.
#[derive(Clone, Copy, Debug, PartialEq, Eq, Structural)]
pub enum TerminalOp {
    /// Switch to the alternate screen.
    EnterAlternateScreen,
    /// Switch back to the primary screen.
    LeaveAlternateScreen,
    /// Hide the cursor.
    HideCursor,
    /// Show the cursor.
    ShowCursor,
    /// Put the cursor at the given column and row, both counted from zero.
    MoveTo { column: u16, row: u16 },
    /// Clear the whole screen.
    ClearAll,
    /// Clear the line that the cursor is on.
    ClearCurrentLine,
    /// Hold back what is drawn from here on.
    BeginSynchronizedUpdate,
    /// Show at once what was drawn since the update began.
    EndSynchronizedUpdate,
    /// Print the message at the cursor.
    Print(Message),
    /// Have key strokes delivered one by one, unechoed.
    EnableRawMode,
    /// Give the terminal its line discipline back.
    DisableRawMode,
}

/// A part of the work around the timer that can fail for reasons outside the
/// user's control.
#[derive(Clone, Copy, Debug, PartialEq, Eq, Structural)]
pub enum SystemFailure {
    /// The runtime that drives the timer could not be built.
    BuildRuntime,
    /// The terminal could not be prepared.
    EnterScreen,
    /// A frame could not be drawn.
    WriteTerminal,
    /// The terminal could not be given back.
    ClearTerminal,
    /// The input could not be read.
    ReadEvents,
}

impl SystemFailure {
    /// The short title of the failure.
    pub open spec fn title_spec(self) -> Seq<char> {
        match self {
            SystemFailure::BuildRuntime => "Failed to build the runtime"@,
            SystemFailure::EnterScreen => "Failed to enter alternate screen"@,
            SystemFailure::WriteTerminal => "Failed to write to the terminal"@,
            SystemFailure::ClearTerminal => "Failed to clear the terminal"@,
            SystemFailure::ReadEvents => "Failed to read events"@,
        }
    }

    /// The short title of the failure.
    pub fn title(&self) -> (title: &'static str)
        ensures
            title@ == self.title_spec(),
    {
        match self {
            SystemFailure::BuildRuntime => "Failed to build the runtime",
            SystemFailure::EnterScreen => "Failed to enter alternate screen",
            SystemFailure::WriteTerminal => "Failed to write to the terminal",
            SystemFailure::ClearTerminal => "Failed to clear the terminal",
            SystemFailure::ReadEvents => "Failed to read events",
        }
    }

    /// What the user can do about the failure.
    pub open spec fn hint_spec(self) -> Seq<char> {
        "Try notifying the developer"@
    }

    /// What the user can do about the failure.
    pub fn hint(&self) -> (hint: &'static str)
        ensures
            hint@ == self.hint_spec(),
    {
        "Try notifying the developer"
    }
}

} // verus!
