//! The countdown as a state machine.
//!
//! A [`Timer`] takes one [`Event`] at a time and answers with the [`Action`]
//! that its driver is to carry out. It waits for nothing and draws nothing
//! itself, so a session can be replayed from a list of events. [`TimerView`]
//! is the timer as a mathematical value, with its durations in nanoseconds;
//! [`TimerView::step`] says what each event does to it.

use crate::duration::{max_nanos, Duration};
use crate::terminal::{Message, SystemFailure, TerminalOp};
use vstd::prelude::*;

verus! {

/// What a key event is about.
#[derive(Clone, Copy, Debug, PartialEq, Eq, Structural)]
pub enum KeyCode {
    /// A key that stands for a character.
    Char(char),
    /// Any other key.
    Other,
}

/// What happened to a key.
#[derive(Clone, Copy, Debug, PartialEq, Eq, Structural)]
pub enum KeyKind {
    /// It went down.
    Press,
    /// It is held down.
    Repeat,
    /// It came up.
    Release,
}

/// The modifier keys held during a key event.
#[derive(Clone, Copy, Debug, PartialEq, Eq, Structural)]
pub struct Modifiers {
    pub shift: bool,
    pub control: bool,
    pub alt: bool,
    pub super_key: bool,
    pub hyper: bool,
    pub meta: bool,
}

/// A key event as the input source reports it.
#[derive(Clone, Copy, Debug, PartialEq, Eq, Structural)]
pub struct KeyEvent {
    pub code: KeyCode,
    pub kind: KeyKind,
    pub modifiers: Modifiers,
}

/// One answer of the input source.
#[derive(Clone, Copy, Debug, PartialEq, Eq, Structural)]
pub enum Input {
    /// A key event.
    Key(KeyEvent),
    /// An event that is no key event.
    Other,
    /// The source has nothing more to give.
    Closed,
    /// The source could not be read.
    Failed,
}

/// Something that happens to a running timer.
#[derive(Clone, Copy, Debug, PartialEq, Eq, Structural)]
pub enum Event {
    /// One tick period has passed.
    Tick,
    /// The input source has answered.
    Input(Input),
    /// The process was asked from outside to stop.
    Interrupt,
    /// The driver could not do to the terminal what the timer asked for.
    TerminalFailed(SystemFailure),
}

/// What a key event asks the timer to do.
#[derive(Clone, Copy, Debug, PartialEq, Eq, Structural)]
pub enum Command {
    /// Stop the timer.
    Quit,
    /// Pause the timer, or resume it.
    TogglePause,
    /// Nothing.
    Ignore,
}

/// Where a timer stands.
#[derive(Clone, Copy, Debug, PartialEq, Eq, Structural)]
pub enum Phase {
    /// The time is running down.
    Running,
    /// The time stands still until the user resumes.
    Paused,
    /// The time has run out, or the input has ended.
    Finished,
    /// The user has stopped the timer.
    StoppedByUser,
    /// A failure of the terminal or of the input has ended the session.
    Aborted,
}

/// What the driver is to do after an event.
#[derive(Clone, Copy, Debug, PartialEq, Eq, Structural)]
pub enum Action {
    /// Prepare the terminal for the session.
    Enter,
    /// Nothing.
    Idle,
    /// Draw the time that is left, in whole seconds.
    ShowRemaining { seconds: u64 },
    /// Draw the two lines of the pause banner: the status line, which says
    /// that the timer is paused, then the help line.
    PrintPaused,
    /// Blank the two lines of the pause banner.
    ClearPaused,
    /// Give the terminal back and say that the time has run out.
    Finish,
    /// Give the terminal back and say how much time was left and how much
    /// had passed, in whole seconds.
    Stop { remaining: u64, elapsed: u64 },
    /// Give the terminal back without a word and report the failure.
    Abort { failure: SystemFailure },
}

/// The length of one tick in nanoseconds.
pub open spec fn tick_nanos() -> nat {
    1_000_000_000
}

impl Modifiers {
    /// Whether the control key is held and no other modifier is.
    pub open spec fn is_control_only(self) -> bool {
        self.control && !self.shift && !self.alt && !self.super_key && !self.hyper && !self.meta
    }
}

impl KeyEvent {
    /// Whether this is a press of the quit key, `q`, with any modifiers.
    pub open spec fn is_quit(self) -> bool {
        self.kind is Press && self.code == KeyCode::Char('q')
    }

    /// Whether this is a press of the interrupt chord, `c` with the control
    /// key and no other modifier.
    pub open spec fn is_interrupt(self) -> bool {
        self.kind is Press && self.code == KeyCode::Char('c') && self.modifiers.is_control_only()
    }

    /// Whether this is a press of the pause key, `p`, with any modifiers.
    pub open spec fn is_pause(self) -> bool {
        self.kind is Press && self.code == KeyCode::Char('p')
    }

    /// What the key event asks for.
    pub open spec fn command_spec(self) -> Command {
        if self.is_quit() || self.is_interrupt() {
            Command::Quit
        } else if self.is_pause() {
            Command::TogglePause
        } else {
            Command::Ignore
        }
    }

    /// What the key event asks for.
    pub fn command(&self) -> (command: Command)
        ensures
            command == self.command_spec(),
    {
        match self.kind {
            KeyKind::Press => match self.code {
                KeyCode::Char(c) => {
                    let m = self.modifiers;
                    let control_only = m.control && !m.shift && !m.alt && !m.super_key && !m.hyper
                        && !m.meta;
                    if c == 'q' || (c == 'c' && control_only) {
                        Command::Quit
                    } else if c == 'p' {
                        Command::TogglePause
                    } else {
                        Command::Ignore
                    }
                },
                KeyCode::Other => Command::Ignore,
            },
            _ => Command::Ignore,
        }
    }
}

impl Phase {
    /// Whether nothing can happen to a timer in this phase any more.
    pub open spec fn is_terminal(self) -> bool {
        !(self is Running) && !(self is Paused)
    }

    /// The status that the process ends with: zero where the session ended
    /// as it should, by running out or at the user's wish, one after a
    /// failure, and none while the session is going on.
    pub open spec fn exit_code_spec(self) -> Option<u8> {
        match self {
            Phase::Running | Phase::Paused => None,
            Phase::Finished | Phase::StoppedByUser => Some(0u8),
            Phase::Aborted => Some(1u8),
        }
    }

    /// The status that the process ends with.
    pub fn exit_code(&self) -> (code: Option<u8>)
        ensures
            code == self.exit_code_spec(),
    {
        match self {
            Phase::Running | Phase::Paused => None,
            Phase::Finished | Phase::StoppedByUser => Some(0),
            Phase::Aborted => Some(1),
        }
    }
}

impl Action {
    /// What the action does to the terminal, step by step.
    pub open spec fn ops_spec(self) -> Seq<TerminalOp> {
        match self {
            Action::Enter => seq![
                TerminalOp::EnterAlternateScreen,
                TerminalOp::HideCursor,
                TerminalOp::MoveTo { column: 0, row: 0 },
                TerminalOp::EnableRawMode,
            ],
            Action::Idle => Seq::<TerminalOp>::empty(),
            Action::ShowRemaining { seconds } => seq![
                TerminalOp::BeginSynchronizedUpdate,
                TerminalOp::ClearAll,
                TerminalOp::MoveTo { column: 0, row: 0 },
                TerminalOp::Print(Message::Remaining { seconds }),
                TerminalOp::EndSynchronizedUpdate,
            ],
            Action::PrintPaused => seq![
                TerminalOp::MoveTo { column: 0, row: 1 },
                TerminalOp::Print(Message::PausedLabel),
                TerminalOp::MoveTo { column: 0, row: 2 },
                TerminalOp::Print(Message::PausedHelp),
            ],
            Action::ClearPaused => seq![
                TerminalOp::BeginSynchronizedUpdate,
                TerminalOp::MoveTo { column: 0, row: 1 },
                TerminalOp::ClearCurrentLine,
                TerminalOp::MoveTo { column: 0, row: 2 },
                TerminalOp::ClearCurrentLine,
                TerminalOp::EndSynchronizedUpdate,
            ],
            Action::Finish => seq![
                TerminalOp::ShowCursor,
                TerminalOp::LeaveAlternateScreen,
                TerminalOp::Print(Message::Finished),
                TerminalOp::DisableRawMode,
            ],
            Action::Stop { remaining, elapsed } => seq![
                TerminalOp::ShowCursor,
                TerminalOp::LeaveAlternateScreen,
                TerminalOp::Print(Message::Stopped { remaining, elapsed }),
                TerminalOp::DisableRawMode,
            ],
            Action::Abort { .. } => seq![
                TerminalOp::ShowCursor,
                TerminalOp::LeaveAlternateScreen,
                TerminalOp::DisableRawMode,
            ],
        }
    }

    /// What the action does to the terminal, step by step.
    pub fn ops(&self) -> (ops: Vec<TerminalOp>)
        ensures
            ops@ == self.ops_spec(),
    {
        let mut ops: Vec<TerminalOp> = Vec::new();
        match self {
            Action::Enter => {
                ops.push(TerminalOp::EnterAlternateScreen);
                ops.push(TerminalOp::HideCursor);
                ops.push(TerminalOp::MoveTo { column: 0, row: 0 });
                ops.push(TerminalOp::EnableRawMode);
            },
            Action::Idle => {},
            Action::ShowRemaining { seconds } => {
                ops.push(TerminalOp::BeginSynchronizedUpdate);
                ops.push(TerminalOp::ClearAll);
                ops.push(TerminalOp::MoveTo { column: 0, row: 0 });
                ops.push(TerminalOp::Print(Message::Remaining { seconds: *seconds }));
                ops.push(TerminalOp::EndSynchronizedUpdate);
            },
            Action::PrintPaused => {
                ops.push(TerminalOp::MoveTo { column: 0, row: 1 });
                ops.push(TerminalOp::Print(Message::PausedLabel));
                ops.push(TerminalOp::MoveTo { column: 0, row: 2 });
                ops.push(TerminalOp::Print(Message::PausedHelp));
            },
            Action::ClearPaused => {
                ops.push(TerminalOp::BeginSynchronizedUpdate);
                ops.push(TerminalOp::MoveTo { column: 0, row: 1 });
                ops.push(TerminalOp::ClearCurrentLine);
                ops.push(TerminalOp::MoveTo { column: 0, row: 2 });
                ops.push(TerminalOp::ClearCurrentLine);
                ops.push(TerminalOp::EndSynchronizedUpdate);
            },
            Action::Finish => {
                ops.push(TerminalOp::ShowCursor);
                ops.push(TerminalOp::LeaveAlternateScreen);
                ops.push(TerminalOp::Print(Message::Finished));
                ops.push(TerminalOp::DisableRawMode);
            },
            Action::Stop { remaining, elapsed } => {
                ops.push(TerminalOp::ShowCursor);
                ops.push(TerminalOp::LeaveAlternateScreen);
                ops.push(
                    TerminalOp::Print(
                        Message::Stopped { remaining: *remaining, elapsed: *elapsed },
                    ),
                );
                ops.push(TerminalOp::DisableRawMode);
            },
            Action::Abort { .. } => {
                ops.push(TerminalOp::ShowCursor);
                ops.push(TerminalOp::LeaveAlternateScreen);
                ops.push(TerminalOp::DisableRawMode);
            },
        }
        assert(ops@ =~= self.ops_spec());
        ops
    }

    /// The failure to report where the terminal refuses what the action asks
    /// of it. An action that asks for nothing cannot fail, and giving the
    /// terminal back after a failure is tried without a report of its own.
    pub open spec fn failure_spec(self) -> Option<SystemFailure> {
        match self {
            Action::Enter => Some(SystemFailure::EnterScreen),
            Action::ShowRemaining { .. }
            | Action::PrintPaused
            | Action::ClearPaused => Some(SystemFailure::WriteTerminal),
            Action::Finish | Action::Stop { .. } => Some(SystemFailure::ClearTerminal),
            Action::Idle | Action::Abort { .. } => None,
        }
    }

    /// The failure to report where the terminal refuses what the action asks
    /// of it.
    pub fn failure(&self) -> (failure: Option<SystemFailure>)
        ensures
            failure == self.failure_spec(),
    {
        match self {
            Action::Enter => Some(SystemFailure::EnterScreen),
            Action::ShowRemaining { .. }
            | Action::PrintPaused
            | Action::ClearPaused => Some(SystemFailure::WriteTerminal),
            Action::Finish | Action::Stop { .. } => Some(SystemFailure::ClearTerminal),
            Action::Idle | Action::Abort { .. } => None,
        }
    }
}

/// A timer as a mathematical value. Durations are in nanoseconds.
pub struct TimerView {
    /// The time that is left.
    pub remaining: nat,
    /// The time that the timer started with.
    pub initial: nat,
    /// Where the timer stands.
    pub phase: Phase,
    /// Whether the pause banner is on the screen.
    pub paused_message_shown: bool,
}

impl TimerView {
    /// What holds of every timer: no more time is left than there was at the
    /// start, and while the time runs down no pause banner is on the screen.
    pub open spec fn wf(self) -> bool {
        &&& self.remaining <= self.initial
        &&& self.initial <= max_nanos()
        &&& self.phase is Running ==> !self.paused_message_shown
    }

    /// A fresh timer for `initial` nanoseconds.
    pub open spec fn start(initial: nat) -> TimerView {
        TimerView {
            remaining: initial,
            initial,
            phase: Phase::Running,
            paused_message_shown: false,
        }
    }

    /// The time that has passed since the start.
    pub open spec fn elapsed(self) -> nat {
        (self.initial - self.remaining) as nat
    }

    /// The whole seconds in the time that is left.
    pub open spec fn remaining_secs(self) -> u64 {
        (self.remaining / 1_000_000_000) as u64
    }

    /// The whole seconds in the time that has passed.
    pub open spec fn elapsed_secs(self) -> u64 {
        (self.elapsed() / 1_000_000_000) as u64
    }

    /// The pause banner is wanted on the screen: where it is there already,
    /// nothing is done; where it is not, it is drawn and noted as shown.
    pub open spec fn print_paused(self) -> (TimerView, Action) {
        if self.paused_message_shown {
            (self, Action::Idle)
        } else {
            (TimerView { paused_message_shown: true, ..self }, Action::PrintPaused)
        }
    }

    /// One tick passes over a timer that is running or paused. A paused
    /// timer loses no time, and its banner is drawn only where it is not on
    /// the screen yet.
    pub open spec fn tick(self) -> (TimerView, Action) {
        if self.phase is Paused {
            self.print_paused()
        } else if self.remaining == 0 {
            (TimerView { phase: Phase::Finished, ..self }, Action::Finish)
        } else {
            (
                TimerView {
                    remaining: if self.remaining >= tick_nanos() {
                        (self.remaining - tick_nanos()) as nat
                    } else {
                        0
                    },
                    ..self
                },
                Action::ShowRemaining { seconds: self.remaining_secs() },
            )
        }
    }

    /// The user stops a timer that is running or paused.
    pub open spec fn stop(self) -> (TimerView, Action) {
        (
            TimerView { phase: Phase::StoppedByUser, ..self },
            Action::Stop { remaining: self.remaining_secs(), elapsed: self.elapsed_secs() },
        )
    }

    /// The user pauses a running timer, or resumes a paused one.
    pub open spec fn toggle_pause(self) -> (TimerView, Action) {
        if self.phase is Paused {
            (
                TimerView { phase: Phase::Running, paused_message_shown: false, ..self },
                Action::ClearPaused,
            )
        } else {
            TimerView { phase: Phase::Paused, ..self }.print_paused()
        }
    }

    /// A failure ends the session of a timer that is running or paused.
    pub open spec fn abort(self, failure: SystemFailure) -> (TimerView, Action) {
        (TimerView { phase: Phase::Aborted, ..self }, Action::Abort { failure })
    }

    /// The input source answers a timer that is running or paused.
    pub open spec fn input(self, input: Input) -> (TimerView, Action) {
        match input {
            Input::Closed => (TimerView { phase: Phase::Finished, ..self }, Action::Finish),
            Input::Failed => self.abort(SystemFailure::ReadEvents),
            Input::Other => (self, Action::Idle),
            Input::Key(key) => match key.command_spec() {
                Command::Quit => self.stop(),
                Command::TogglePause => self.toggle_pause(),
                Command::Ignore => (self, Action::Idle),
            },
        }
    }

    /// The timer after `event`, and what the driver is to do. Once a timer
    /// has finished, was stopped or was aborted, nothing moves it.
    pub open spec fn step(self, event: Event) -> (TimerView, Action) {
        if self.phase.is_terminal() {
            (self, Action::Idle)
        } else {
            match event {
                Event::Tick => self.tick(),
                Event::Input(input) => self.input(input),
                Event::Interrupt => self.stop(),
                Event::TerminalFailed(failure) => self.abort(failure),
            }
        }
    }

    /// The timer after `count` ticks in a row.
    pub open spec fn after_ticks(self, count: nat) -> TimerView
        decreases count,
    {
        if count == 0 {
            self
        } else {
            self.after_ticks((count - 1) as nat).step(Event::Tick).0
        }
    }
}

/// A countdown in progress.
#[derive(Clone, Copy, Debug, PartialEq, Eq)]
pub struct Timer {
    remaining: Duration,
    initial: Duration,
    phase: Phase,
    paused_message_shown: bool,
}

impl View for Timer {
    type V = TimerView;

    closed spec fn view(&self) -> TimerView {
        TimerView {
            remaining: self.remaining@,
            initial: self.initial@,
            phase: self.phase,
            paused_message_shown: self.paused_message_shown,
        }
    }
}

impl Timer {
    /// Every timer that executable code holds is well-formed, and so are its
    /// durations.
    #[verifier::type_invariant]
    pub closed spec fn is_valid(self) -> bool {
        &&& self@.wf()
        &&& self.remaining.is_valid()
        &&& self.initial.is_valid()
    }

    /// The view of a valid timer is well-formed.
    pub proof fn lemma_valid_wf(self)
        requires
            self.is_valid(),
        ensures
            self@.wf(),
    {
    }

    /// The time between two ticks.
    pub fn tick_period() -> (period: Duration)
        ensures
            period@ == tick_nanos(),
    {
        Duration::from_secs(1)
    }

    /// A fresh timer for `initial`.
    pub fn new(initial: Duration) -> (timer: Timer)
        ensures
            timer@ == TimerView::start(initial@),
            timer.is_valid(),
    {
        proof {
            use_type_invariant(initial);
            initial.lemma_valid_in_range();
        }
        Timer { remaining: initial, initial, phase: Phase::Running, paused_message_shown: false }
    }

    /// The time that is left.
    pub fn remaining(&self) -> (remaining: Duration)
        ensures
            remaining@ == self@.remaining,
    {
        self.remaining
    }

    /// The time that the timer started with.
    pub fn initial(&self) -> (initial: Duration)
        ensures
            initial@ == self@.initial,
    {
        self.initial
    }

    /// The time that has passed since the start.
    pub fn elapsed(&self) -> (elapsed: Duration)
        ensures
            elapsed@ == self@.elapsed(),
            elapsed@ + self@.remaining == self@.initial,
    {
        proof {
            use_type_invariant(self);
        }
        self.initial.saturating_sub(self.remaining)
    }

    /// Where the timer stands.
    pub fn phase(&self) -> (phase: Phase)
        ensures
            phase == self@.phase,
    {
        self.phase
    }

    /// Whether the timer is paused.
    pub fn is_paused(&self) -> (paused: bool)
        ensures
            paused == (self@.phase is Paused),
    {
        match self.phase {
            Phase::Paused => true,
            _ => false,
        }
    }

    /// Whether the pause banner is on the screen.
    pub fn paused_message_shown(&self) -> (shown: bool)
        ensures
            shown == self@.paused_message_shown,
    {
        self.paused_message_shown
    }

    /// Whether the session is over.
    pub fn is_over(&self) -> (over: bool)
        ensures
            over == self@.phase.is_terminal(),
    {
        match self.phase {
            Phase::Running | Phase::Paused => false,
            _ => true,
        }
    }

    /// Has the pause banner drawn where it is not on the screen yet, and
    /// notes it as shown; does nothing where it is.
    fn print_paused(&mut self) -> (action: Action)
        requires
            old(self)@.phase is Paused,
        ensures
            (final(self)@, action) == old(self)@.print_paused(),
    {
        proof {
            use_type_invariant(&*self);
        }
        if self.paused_message_shown {
            Action::Idle
        } else {
            self.paused_message_shown = true;
            Action::PrintPaused
        }
    }

    /// Ends the session at the user's wish.
    fn stop(&mut self) -> (action: Action)
        requires
            !old(self)@.phase.is_terminal(),
        ensures
            (final(self)@, action) == old(self)@.stop(),
    {
        proof {
            use_type_invariant(&*self);
        }
        let remaining = self.remaining.as_secs();
        let elapsed = self.elapsed().as_secs();
        self.phase = Phase::StoppedByUser;
        Action::Stop { remaining, elapsed }
    }

    /// Ends the session after a failure.
    fn abort(&mut self, failure: SystemFailure) -> (action: Action)
        requires
            !old(self)@.phase.is_terminal(),
        ensures
            (final(self)@, action) == old(self)@.abort(failure),
    {
        proof {
            use_type_invariant(&*self);
        }
        self.phase = Phase::Aborted;
        Action::Abort { failure }
    }

    /// Lets one tick pass.
    pub fn process_tick_branch(&mut self) -> (action: Action)
        ensures
            (final(self)@, action) == old(self)@.step(Event::Tick),
    {
        proof {
            use_type_invariant(&*self);
        }
        if self.is_over() {
            return Action::Idle;
        }
        if self.is_paused() {
            return self.print_paused();
        }
        if self.remaining.is_zero() {
            self.phase = Phase::Finished;
            return Action::Finish;
        }
        let seconds = self.remaining.as_secs();
        self.remaining = self.remaining.saturating_sub(Timer::tick_period());
        Action::ShowRemaining { seconds }
    }

    /// Takes one answer of the input source.
    pub fn process_event_branch(&mut self, input: Input) -> (action: Action)
        ensures
            (final(self)@, action) == old(self)@.step(Event::Input(input)),
    {
        proof {
            use_type_invariant(&*self);
        }
        if self.is_over() {
            return Action::Idle;
        }
        match input {
            Input::Closed => {
                self.phase = Phase::Finished;
                Action::Finish
            },
            Input::Failed => self.abort(SystemFailure::ReadEvents),
            Input::Other => Action::Idle,
            Input::Key(key) => match key.command() {
                Command::Quit => self.stop(),
                Command::TogglePause => {
                    if self.is_paused() {
                        self.paused_message_shown = false;
                        self.phase = Phase::Running;
                        Action::ClearPaused
                    } else {
                        self.phase = Phase::Paused;
                        self.print_paused()
                    }
                },
                Command::Ignore => Action::Idle,
            },
        }
    }

    /// Takes one event and says what the driver is to do.
    pub fn step(&mut self, event: Event) -> (action: Action)
        ensures
            (final(self)@, action) == old(self)@.step(event),
    {
        if self.is_over() {
            return Action::Idle;
        }
        match event {
            Event::Tick => self.process_tick_branch(),
            Event::Input(input) => self.process_event_branch(input),
            Event::Interrupt => self.stop(),
            Event::TerminalFailed(failure) => self.abort(failure),
        }
    }
}

/// A whole session: the timer after `events`, taken one by one from a fresh
/// timer for `initial` nanoseconds, and the actions that they called for, in
/// order. Events that come after the session is over are left unread.
pub open spec fn run_spec(initial: nat, events: Seq<Event>) -> (TimerView, Seq<Action>)
    decreases events.len(),
{
    if events.len() == 0 {
        (TimerView::start(initial), Seq::<Action>::empty())
    } else {
        let (timer, actions) = run_spec(initial, events.drop_last());
        if timer.phase.is_terminal() {
            (timer, actions)
        } else {
            let (next, action) = timer.step(events.last());
            (next, actions.push(action))
        }
    }
}

/// Once a session is over, further events change nothing.
proof fn lemma_run_over(initial: nat, events: Seq<Event>, read: int)
    requires
        0 <= read <= events.len(),
        run_spec(initial, events.take(read)).0.phase.is_terminal(),
    ensures
        run_spec(initial, events) == run_spec(initial, events.take(read)),
    decreases events.len() - read,
{
    if read < events.len() {
        assert(events.take(read + 1).drop_last() =~= events.take(read));
        lemma_run_over(initial, events, read + 1);
    } else {
        assert(events.take(read) =~= events);
    }
}

/// Runs a session from a list of events: prepares the terminal, then takes
/// the events one by one until the session is over or the list ends. Returns
/// the timer as it stands then, and every action in order.
pub fn run_timer(duration: Duration, events: &Vec<Event>) -> (session: (Timer, Vec<Action>))
    ensures
        session.0@ == run_spec(duration@, events@).0,
        session.1@ == seq![Action::Enter] + run_spec(duration@, events@).1,
{
    let mut timer = Timer::new(duration);
    let mut actions: Vec<Action> = Vec::new();
    actions.push(Action::Enter);
    let mut read: usize = 0;
    assert(events@.take(0) =~= Seq::<Event>::empty());
    assert(actions@ =~= seq![Action::Enter] + run_spec(duration@, events@.take(0)).1);
    while read < events.len() && !timer.is_over()
        invariant
            read <= events.len(),
            timer@ == run_spec(duration@, events@.take(read as int)).0,
            actions@ == seq![Action::Enter] + run_spec(duration@, events@.take(read as int)).1,
        decreases events.len() - read,
    {
        let ghost before = run_spec(duration@, events@.take(read as int));
        assert(events@.take(read + 1).drop_last() =~= events@.take(read as int));
        assert(events@.take(read + 1).last() == events@[read as int]);
        let action = timer.step(events[read]);
        actions.push(action);
        read += 1;
        assert(actions@ =~= seq![Action::Enter] + before.1.push(action));
    }
    proof {
        if read < events.len() {
            lemma_run_over(duration@, events@, read as int);
        } else {
            assert(events@.take(read as int) =~= events@);
        }
    }
    (timer, actions)
}

impl Action {
    /// Whether the action gives the terminal back: cursor shown, primary
    /// screen, line discipline restored, in this order.
    pub open spec fn gives_terminal_back(self) -> bool {
        exists|i: int, j: int, k: int|
            #![trigger self.ops_spec()[i], self.ops_spec()[j], self.ops_spec()[k]]
            0 <= i < j < k < self.ops_spec().len() && self.ops_spec()[i] == TerminalOp::ShowCursor
                && self.ops_spec()[j] == TerminalOp::LeaveAlternateScreen && self.ops_spec()[k]
                == TerminalOp::DisableRawMode
    }
}

/// Whether `ops` hold a synchronized update only as a whole: where one is
/// begun or ended at all, it is begun with the first step and ended with
/// the last.
pub open spec fn updates_are_whole(ops: Seq<TerminalOp>) -> bool {
    forall|i: int|
        0 <= i < ops.len() ==> {
            &&& #[trigger] ops[i] == TerminalOp::BeginSynchronizedUpdate ==> i == 0 && ops.last()
                == TerminalOp::EndSynchronizedUpdate
            &&& ops[i] == TerminalOp::EndSynchronizedUpdate ==> i == ops.len() - 1 && ops[0]
                == TerminalOp::BeginSynchronizedUpdate
        }
}

/// No action leaves a synchronized update open, and none ends one that it
/// did not begin.
pub proof fn lemma_updates_are_whole(action: Action)
    ensures
        updates_are_whole(action.ops_spec()),
{
}

/// The step that ends a session gives the terminal back.
pub proof fn lemma_last_step_gives_terminal_back(timer: TimerView, event: Event)
    requires
        !timer.phase.is_terminal(),
        timer.step(event).0.phase.is_terminal(),
    ensures
        timer.step(event).1.gives_terminal_back(),
{
    let action = timer.step(event).1;
    let ops = action.ops_spec();
    match action {
        Action::Finish | Action::Stop { .. } => {
            assert(ops[0] == TerminalOp::ShowCursor && ops[1] == TerminalOp::LeaveAlternateScreen
                && ops[3] == TerminalOp::DisableRawMode);
        },
        Action::Abort { .. } => {
            assert(ops[0] == TerminalOp::ShowCursor && ops[1] == TerminalOp::LeaveAlternateScreen
                && ops[2] == TerminalOp::DisableRawMode);
        },
        _ => {},
    }
}

/// A session calls for at most one action per event, and one that is over
/// has given the terminal back with its last action.
pub proof fn lemma_session_ends_restored(initial: nat, events: Seq<Event>)
    ensures
        run_spec(initial, events).1.len() <= events.len(),
        run_spec(initial, events).0.phase.is_terminal() ==> run_spec(initial, events).1.len() > 0
            && run_spec(initial, events).1.last().gives_terminal_back(),
    decreases events.len(),
{
    if events.len() > 0 {
        lemma_session_ends_restored(initial, events.drop_last());
        let (timer, actions) = run_spec(initial, events.drop_last());
        if !timer.phase.is_terminal() && timer.step(events.last()).0.phase.is_terminal() {
            lemma_last_step_gives_terminal_back(timer, events.last());
        }
    }
}

/// Whatever happens to a well-formed timer, it stays well-formed, it keeps
/// the time it started with, and no time is added to what is left.
pub proof fn lemma_step_keeps_wf(timer: TimerView, event: Event)
    requires
        timer.wf(),
    ensures
        timer.step(event).0.wf(),
        timer.step(event).0.initial == timer.initial,
        timer.step(event).0.remaining <= timer.remaining,
{
}

/// A tick over a running timer with no time left ends the countdown, and
/// the time left stays zero.
pub proof fn lemma_zero_finishes(timer: TimerView)
    requires
        timer.phase is Running,
        timer.remaining == 0,
    ensures
        timer.step(Event::Tick).0.phase is Finished,
        timer.step(Event::Tick).0.remaining == 0,
        timer.step(Event::Tick).1 == Action::Finish,
{
}

/// A running timer counts down by one tick per tick, stops at zero without
/// passing it, and finishes on the tick after it has reached zero.
pub proof fn lemma_countdown(timer: TimerView, ticks: nat)
    requires
        timer.phase is Running,
    ensures
        timer.after_ticks(ticks).remaining == if timer.remaining >= ticks * tick_nanos() {
            (timer.remaining - ticks * tick_nanos()) as nat
        } else {
            0
        },
        timer.after_ticks(ticks).phase == if ticks >= 1 && (ticks - 1) * tick_nanos()
            >= timer.remaining {
            Phase::Finished
        } else {
            Phase::Running
        },
    decreases ticks,
{
    if ticks > 0 {
        lemma_countdown(timer, (ticks - 1) as nat);
    }
}

/// Asking for the pause banner a second time changes nothing and draws
/// nothing: once is as good as any number of times.
pub proof fn lemma_print_paused_once(timer: TimerView)
    ensures
        timer.print_paused().0.paused_message_shown,
        timer.print_paused().0.print_paused() == (timer.print_paused().0, Action::Idle),
        timer.paused_message_shown ==> timer.print_paused() == (timer, Action::Idle),
{
}

/// A tick over a paused timer whose banner is on the screen changes nothing
/// and draws nothing.
pub proof fn lemma_paused_tick_leaves_banner(timer: TimerView)
    requires
        timer.phase is Paused,
        timer.paused_message_shown,
    ensures
        timer.step(Event::Tick) == (timer, Action::Idle),
{
}

/// While a timer is paused, ticks leave the time left as it is. After the
/// first of them the banner is on the screen, and where it was there from
/// the start the timer stays exactly as it was.
pub proof fn lemma_paused_ticks_freeze(timer: TimerView, ticks: nat)
    requires
        timer.phase is Paused,
    ensures
        timer.after_ticks(ticks).phase is Paused,
        timer.after_ticks(ticks).remaining == timer.remaining,
        timer.after_ticks(ticks).initial == timer.initial,
        ticks >= 1 ==> timer.after_ticks(ticks).paused_message_shown,
        timer.paused_message_shown ==> timer.after_ticks(ticks) == timer,
    decreases ticks,
{
    if ticks > 0 {
        lemma_paused_ticks_freeze(timer, (ticks - 1) as nat);
    }
}

/// The pause key pauses a running timer; however many ticks follow, the time
/// left stays what it was; and the pause key then resumes the countdown from
/// exactly that time.
pub proof fn lemma_pause_freezes_remaining(
    timer: TimerView,
    pause: KeyEvent,
    ticks: nat,
    resume: KeyEvent,
)
    requires
        timer.phase is Running,
        pause.is_pause(),
        resume.is_pause(),
    ensures
        ({
            let paused = timer.step(Event::Input(Input::Key(pause))).0;
            let waited = paused.after_ticks(ticks);
            let resumed = waited.step(Event::Input(Input::Key(resume))).0;
            &&& paused.phase is Paused
            &&& paused.remaining == timer.remaining
            &&& waited.phase is Paused
            &&& waited.remaining == timer.remaining
            &&& resumed.phase is Running
            &&& resumed.remaining == timer.remaining
        }),
{
    let paused = timer.step(Event::Input(Input::Key(pause))).0;
    lemma_paused_ticks_freeze(paused, ticks);
}

/// The pause key has the banner drawn once: it is drawn when a running
/// timer is paused, and the ticks that follow neither draw nor clear
/// anything and leave the paused timer exactly as it is.
pub proof fn lemma_pause_draws_banner_once(timer: TimerView, pause: KeyEvent, ticks: nat)
    requires
        timer.wf(),
        timer.phase is Running,
        pause.is_pause(),
    ensures
        ({
            let (paused, drawn) = timer.step(Event::Input(Input::Key(pause)));
            &&& drawn == Action::PrintPaused
            &&& paused.paused_message_shown
            &&& paused.step(Event::Tick) == (paused, Action::Idle)
            &&& paused.after_ticks(ticks) == paused
        }),
{
    let paused = timer.step(Event::Input(Input::Key(pause))).0;
    lemma_paused_ticks_freeze(paused, ticks);
}

/// Whether `event` asks the timer to stop: the quit key, the interrupt
/// chord, or an interrupt from outside.
pub open spec fn asks_to_stop(event: Event) -> bool {
    match event {
        Event::Interrupt => true,
        Event::Input(Input::Key(key)) => key.is_quit() || key.is_interrupt(),
        _ => false,
    }
}

/// From a timer that is running or paused, a request to stop leads to
/// `StoppedByUser`. The time left and the initial time stay as they were,
/// the time that has passed is their difference, and the action reports the
/// whole seconds of both.
pub proof fn lemma_stop_request_stops(timer: TimerView, event: Event)
    requires
        timer.wf(),
        !timer.phase.is_terminal(),
        asks_to_stop(event),
    ensures
        ({
            let (stopped, action) = timer.step(event);
            &&& stopped.phase is StoppedByUser
            &&& stopped.remaining == timer.remaining
            &&& stopped.initial == timer.initial
            &&& stopped.elapsed() == timer.initial - timer.remaining
            &&& action matches Action::Stop { remaining, elapsed }
            &&& remaining == timer.remaining / 1_000_000_000
            &&& elapsed == (timer.initial - timer.remaining) / 1_000_000_000
        }),
{
}

/// Pressing the pause key twice in a row, with no tick between, leaves a
/// running timer exactly as it was.
pub proof fn lemma_double_pause_restores(timer: TimerView, first: KeyEvent, second: KeyEvent)
    requires
        timer.wf(),
        timer.phase is Running,
        first.is_pause(),
        second.is_pause(),
    ensures
        timer.step(Event::Input(Input::Key(first))).0.step(Event::Input(Input::Key(second))).0
            == timer,
{
}

} // verus!
