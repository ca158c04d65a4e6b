use countdown::duration::Duration;
use countdown::terminal::{Message, SystemFailure, TerminalOp};
use countdown::timer::{
    run_timer, Action, Command, Event, Input, KeyCode, KeyEvent, KeyKind, Modifiers, Phase, Timer,
};

const NO_MODIFIERS: Modifiers = Modifiers {
    shift: false,
    control: false,
    alt: false,
    super_key: false,
    hyper: false,
    meta: false,
};

const CONTROL: Modifiers = Modifiers { control: true, ..NO_MODIFIERS };

fn press(c: char) -> KeyEvent {
    KeyEvent { code: KeyCode::Char(c), kind: KeyKind::Press, modifiers: NO_MODIFIERS }
}

fn key(c: char) -> Event {
    Event::Input(Input::Key(press(c)))
}

fn chord(c: char, modifiers: Modifiers) -> Event {
    Event::Input(Input::Key(KeyEvent { modifiers, ..press(c) }))
}

fn secs(n: u64) -> Duration {
    Duration::from_secs(n)
}

#[test]
fn a_fresh_timer_runs_with_all_its_time_left() {
    let timer = Timer::new(secs(90));
    assert_eq!(timer.phase(), Phase::Running);
    assert_eq!(timer.remaining(), secs(90));
    assert_eq!(timer.initial(), secs(90));
    assert_eq!(timer.elapsed(), Duration::zero());
    assert!(!timer.is_paused());
    assert!(!timer.paused_message_shown());
    assert!(!timer.is_over());
    assert_eq!(Timer::tick_period(), secs(1));
}

#[test]
fn a_tick_draws_the_time_left_and_then_takes_a_second_off() {
    let mut timer = Timer::new(secs(3));
    assert_eq!(timer.step(Event::Tick), Action::ShowRemaining { seconds: 3 });
    assert_eq!(timer.remaining(), secs(2));
    assert_eq!(timer.process_tick_branch(), Action::ShowRemaining { seconds: 2 });
    assert_eq!(timer.remaining(), secs(1));
    assert_eq!(timer.initial(), secs(3));
    assert_eq!(timer.elapsed(), secs(2));
    assert_eq!(timer.phase(), Phase::Running);
}

#[test]
fn reaching_zero_finishes_on_the_next_tick() {
    let mut timer = Timer::new(secs(2));
    assert_eq!(timer.step(Event::Tick), Action::ShowRemaining { seconds: 2 });
    assert_eq!(timer.step(Event::Tick), Action::ShowRemaining { seconds: 1 });
    assert_eq!(timer.remaining(), Duration::zero());
    assert_eq!(timer.phase(), Phase::Running);
    assert_eq!(timer.step(Event::Tick), Action::Finish);
    assert_eq!(timer.phase(), Phase::Finished);
    assert_eq!(timer.remaining(), Duration::zero());
    assert!(timer.is_over());
}

#[test]
fn a_timer_for_no_time_finishes_on_the_first_tick() {
    let mut timer = Timer::new(Duration::zero());
    assert_eq!(timer.step(Event::Tick), Action::Finish);
    assert_eq!(timer.phase(), Phase::Finished);
}

#[test]
fn a_last_fraction_of_a_second_runs_down_to_zero_not_below() {
    let mut timer = Timer::new(Duration::from_millis(1_500));
    assert_eq!(timer.step(Event::Tick), Action::ShowRemaining { seconds: 1 });
    assert_eq!(timer.remaining(), Duration::from_millis(500));
    assert_eq!(timer.step(Event::Tick), Action::ShowRemaining { seconds: 0 });
    assert_eq!(timer.remaining(), Duration::zero());
    assert_eq!(timer.elapsed(), Duration::from_millis(1_500));
    assert_eq!(timer.step(Event::Tick), Action::Finish);
    assert_eq!(timer.remaining(), Duration::zero());
}

#[test]
fn the_pause_key_pauses_and_ticks_leave_the_time_alone() {
    let mut timer = Timer::new(secs(10));
    timer.step(Event::Tick);
    timer.step(Event::Tick);
    let frozen = timer.remaining();
    assert_eq!(frozen, secs(8));
    assert_eq!(timer.step(key('p')), Action::PrintPaused);
    assert_eq!(timer.phase(), Phase::Paused);
    assert!(timer.is_paused());
    assert_eq!(timer.remaining(), frozen);
    for _ in 0..5 {
        assert_eq!(timer.step(Event::Tick), Action::Idle);
        assert_eq!(timer.phase(), Phase::Paused);
        assert_eq!(timer.remaining(), frozen);
        assert_eq!(timer.initial(), secs(10));
    }
    assert_eq!(timer.step(key('p')), Action::ClearPaused);
    assert_eq!(timer.phase(), Phase::Running);
    assert_eq!(timer.remaining(), frozen);
    assert_eq!(timer.step(Event::Tick), Action::ShowRemaining { seconds: 8 });
    assert_eq!(timer.remaining(), secs(7));
}

#[test]
fn the_pause_banner_is_drawn_once_and_left_alone() {
    let mut timer = Timer::new(secs(10));
    assert!(!timer.paused_message_shown());
    assert_eq!(timer.step(key('p')), Action::PrintPaused);
    assert!(timer.paused_message_shown());
    let paused = timer;
    for _ in 0..4 {
        assert_eq!(timer.step(Event::Tick), Action::Idle);
        assert_eq!(timer.process_tick_branch(), Action::Idle);
        assert!(timer.paused_message_shown());
        assert_eq!(timer, paused);
    }
    assert_eq!(timer.step(key('p')), Action::ClearPaused);
    assert!(!timer.paused_message_shown());
    assert_eq!(timer.step(key('p')), Action::PrintPaused);
    assert!(timer.paused_message_shown());
    assert_eq!(timer.step(Event::Tick), Action::Idle);
}

#[test]
fn the_pause_banner_is_drawn_anew_after_every_resume() {
    let mut timer = Timer::new(secs(10));
    for _ in 0..3 {
        assert_eq!(timer.step(key('p')), Action::PrintPaused);
        assert_eq!(timer.step(Event::Tick), Action::Idle);
        assert_eq!(timer.step(key('p')), Action::ClearPaused);
        assert!(!timer.paused_message_shown());
    }
    assert_eq!(timer.remaining(), secs(10));
    assert_eq!(timer.phase(), Phase::Running);
}

#[test]
fn pausing_twice_in_a_row_changes_nothing() {
    let mut timer = Timer::new(secs(42));
    timer.step(Event::Tick);
    let before = timer;
    timer.step(key('p'));
    timer.step(key('p'));
    assert_eq!(timer, before);
    assert_eq!(timer.phase(), Phase::Running);
    assert_eq!(timer.remaining(), secs(41));
}

#[test]
fn the_quit_key_stops_a_running_timer() {
    let mut timer = Timer::new(secs(100));
    for _ in 0..30 {
        timer.step(Event::Tick);
    }
    assert_eq!(timer.step(key('q')), Action::Stop { remaining: 70, elapsed: 30 });
    assert_eq!(timer.phase(), Phase::StoppedByUser);
    assert_eq!(timer.remaining(), secs(70));
    assert_eq!(timer.elapsed(), secs(30));
    assert_eq!(timer.elapsed().checked_add(timer.remaining()), Some(timer.initial()));
    assert!(timer.is_over());
}

#[test]
fn the_quit_key_stops_a_paused_timer() {
    let mut timer = Timer::new(secs(100));
    timer.step(Event::Tick);
    timer.step(key('p'));
    timer.step(Event::Tick);
    assert_eq!(timer.step(key('q')), Action::Stop { remaining: 99, elapsed: 1 });
    assert_eq!(timer.phase(), Phase::StoppedByUser);
}

#[test]
fn the_interrupt_chord_and_the_interrupt_stop_the_timer() {
    let mut timer = Timer::new(secs(5));
    assert_eq!(timer.step(chord('c', CONTROL)), Action::Stop { remaining: 5, elapsed: 0 });
    assert_eq!(timer.phase(), Phase::StoppedByUser);

    let mut timer = Timer::new(secs(5));
    timer.step(Event::Tick);
    assert_eq!(timer.step(Event::Interrupt), Action::Stop { remaining: 4, elapsed: 1 });
    assert_eq!(timer.phase(), Phase::StoppedByUser);

    let mut timer = Timer::new(secs(5));
    timer.step(key('p'));
    assert_eq!(timer.step(Event::Interrupt), Action::Stop { remaining: 5, elapsed: 0 });
    assert_eq!(timer.phase(), Phase::StoppedByUser);
}

#[test]
fn stopping_reports_whole_seconds_of_both_times() {
    let mut timer = Timer::new(Duration::from_millis(2_500));
    timer.step(Event::Tick);
    assert_eq!(timer.remaining(), Duration::from_millis(1_500));
    assert_eq!(timer.step(key('q')), Action::Stop { remaining: 1, elapsed: 1 });
    assert_eq!(timer.elapsed(), secs(1));
}

#[test]
fn the_end_of_input_finishes_the_timer() {
    let mut timer = Timer::new(secs(5));
    assert_eq!(timer.step(Event::Input(Input::Closed)), Action::Finish);
    assert_eq!(timer.phase(), Phase::Finished);
    assert_eq!(timer.remaining(), secs(5));

    let mut timer = Timer::new(secs(5));
    timer.step(key('p'));
    assert_eq!(timer.process_event_branch(Input::Closed), Action::Finish);
    assert_eq!(timer.phase(), Phase::Finished);
}

#[test]
fn a_failure_aborts_the_timer() {
    let mut timer = Timer::new(secs(5));
    assert_eq!(
        timer.step(Event::Input(Input::Failed)),
        Action::Abort { failure: SystemFailure::ReadEvents }
    );
    assert_eq!(timer.phase(), Phase::Aborted);
    assert!(timer.is_over());

    let mut timer = Timer::new(secs(5));
    timer.step(key('p'));
    assert_eq!(
        timer.step(Event::TerminalFailed(SystemFailure::WriteTerminal)),
        Action::Abort { failure: SystemFailure::WriteTerminal }
    );
    assert_eq!(timer.phase(), Phase::Aborted);
}

#[test]
fn other_events_change_nothing() {
    let mut timer = Timer::new(secs(5));
    timer.step(Event::Tick);
    let before = timer;
    assert_eq!(timer.step(Event::Input(Input::Other)), Action::Idle);
    assert_eq!(timer.step(key('x')), Action::Idle);
    assert_eq!(timer.step(key('P')), Action::Idle);
    assert_eq!(timer.step(key('Q')), Action::Idle);
    assert_eq!(timer.step(key('c')), Action::Idle);
    assert_eq!(
        timer.step(Event::Input(Input::Key(KeyEvent {
            code: KeyCode::Other,
            kind: KeyKind::Press,
            modifiers: CONTROL,
        }))),
        Action::Idle
    );
    assert_eq!(timer, before);
}

#[test]
fn a_finished_timer_takes_no_more_events() {
    let mut timer = Timer::new(Duration::zero());
    timer.step(Event::Tick);
    let over = timer;
    for event in [
        Event::Tick,
        key('p'),
        key('q'),
        Event::Interrupt,
        Event::Input(Input::Closed),
        Event::Input(Input::Failed),
        Event::TerminalFailed(SystemFailure::ClearTerminal),
    ] {
        assert_eq!(timer.step(event), Action::Idle);
        assert_eq!(timer, over);
    }
    assert_eq!(timer.process_tick_branch(), Action::Idle);
    assert_eq!(timer.process_event_branch(Input::Key(press('q'))), Action::Idle);
    assert_eq!(timer, over);
}

#[test]
fn keys_are_told_apart() {
    assert_eq!(press('q').command(), Command::Quit);
    assert_eq!(press('p').command(), Command::TogglePause);
    assert_eq!(press('c').command(), Command::Ignore);
    assert_eq!(press('x').command(), Command::Ignore);
    let with = |c: char, modifiers: Modifiers| KeyEvent { modifiers, ..press(c) };
    assert_eq!(with('c', CONTROL).command(), Command::Quit);
    assert_eq!(with('c', Modifiers { shift: true, ..CONTROL }).command(), Command::Ignore);
    assert_eq!(with('c', Modifiers { alt: true, ..CONTROL }).command(), Command::Ignore);
    assert_eq!(with('c', Modifiers { super_key: true, ..CONTROL }).command(), Command::Ignore);
    assert_eq!(with('c', Modifiers { hyper: true, ..CONTROL }).command(), Command::Ignore);
    assert_eq!(with('c', Modifiers { meta: true, ..CONTROL }).command(), Command::Ignore);
    assert_eq!(with('c', Modifiers { alt: true, ..NO_MODIFIERS }).command(), Command::Ignore);
    assert_eq!(with('q', CONTROL).command(), Command::Quit);
    assert_eq!(
        with('q', Modifiers { alt: true, shift: true, ..NO_MODIFIERS }).command(),
        Command::Quit
    );
    assert_eq!(with('p', CONTROL).command(), Command::TogglePause);
    for kind in [KeyKind::Repeat, KeyKind::Release] {
        assert_eq!(KeyEvent { kind, ..press('q') }.command(), Command::Ignore);
        assert_eq!(KeyEvent { kind, ..press('p') }.command(), Command::Ignore);
        assert_eq!(KeyEvent { kind, ..with('c', CONTROL) }.command(), Command::Ignore);
    }
    let other = KeyEvent { code: KeyCode::Other, kind: KeyKind::Press, modifiers: NO_MODIFIERS };
    assert_eq!(other.command(), Command::Ignore);
}

#[test]
fn a_tick_draws_one_frame_in_one_update() {
    assert_eq!(
        Action::ShowRemaining { seconds: 90 }.ops(),
        vec![
            TerminalOp::BeginSynchronizedUpdate,
            TerminalOp::ClearAll,
            TerminalOp::MoveTo { column: 0, row: 0 },
            TerminalOp::Print(Message::Remaining { seconds: 90 }),
            TerminalOp::EndSynchronizedUpdate,
        ]
    );
}

#[test]
fn the_pause_banner_has_a_status_line_and_a_help_line() {
    assert_eq!(
        Action::PrintPaused.ops(),
        vec![
            TerminalOp::MoveTo { column: 0, row: 1 },
            TerminalOp::Print(Message::PausedLabel),
            TerminalOp::MoveTo { column: 0, row: 2 },
            TerminalOp::Print(Message::PausedHelp),
        ]
    );
    assert_eq!(
        Action::ClearPaused.ops(),
        vec![
            TerminalOp::BeginSynchronizedUpdate,
            TerminalOp::MoveTo { column: 0, row: 1 },
            TerminalOp::ClearCurrentLine,
            TerminalOp::MoveTo { column: 0, row: 2 },
            TerminalOp::ClearCurrentLine,
            TerminalOp::EndSynchronizedUpdate,
        ]
    );
}

#[test]
fn no_action_leaves_a_synchronized_update_open() {
    let actions = [
        Action::Enter,
        Action::Idle,
        Action::ShowRemaining { seconds: 3 },
        Action::PrintPaused,
        Action::ClearPaused,
        Action::Finish,
        Action::Stop { remaining: 2, elapsed: 1 },
        Action::Abort { failure: SystemFailure::WriteTerminal },
    ];
    for action in actions {
        let ops = action.ops();
        let begun: Vec<usize> = (0..ops.len())
            .filter(|&i| ops[i] == TerminalOp::BeginSynchronizedUpdate)
            .collect();
        let ended: Vec<usize> = (0..ops.len())
            .filter(|&i| ops[i] == TerminalOp::EndSynchronizedUpdate)
            .collect();
        if begun.is_empty() {
            assert!(ended.is_empty());
        } else {
            assert_eq!(begun, vec![0]);
            assert_eq!(ended, vec![ops.len() - 1]);
        }
    }
}

#[test]
fn entering_and_leaving_frame_the_session() {
    assert_eq!(
        Action::Enter.ops(),
        vec![
            TerminalOp::EnterAlternateScreen,
            TerminalOp::HideCursor,
            TerminalOp::MoveTo { column: 0, row: 0 },
            TerminalOp::EnableRawMode,
        ]
    );
    assert_eq!(
        Action::Finish.ops(),
        vec![
            TerminalOp::ShowCursor,
            TerminalOp::LeaveAlternateScreen,
            TerminalOp::Print(Message::Finished),
            TerminalOp::DisableRawMode,
        ]
    );
    assert_eq!(
        Action::Stop { remaining: 7, elapsed: 3 }.ops(),
        vec![
            TerminalOp::ShowCursor,
            TerminalOp::LeaveAlternateScreen,
            TerminalOp::Print(Message::Stopped { remaining: 7, elapsed: 3 }),
            TerminalOp::DisableRawMode,
        ]
    );
    assert_eq!(
        Action::Abort { failure: SystemFailure::ReadEvents }.ops(),
        vec![
            TerminalOp::ShowCursor,
            TerminalOp::LeaveAlternateScreen,
            TerminalOp::DisableRawMode,
        ]
    );
    assert_eq!(Action::Idle.ops(), Vec::<TerminalOp>::new());
}

#[test]
fn every_action_names_the_failure_to_report() {
    assert_eq!(Action::Enter.failure(), Some(SystemFailure::EnterScreen));
    assert_eq!(
        Action::ShowRemaining { seconds: 1 }.failure(),
        Some(SystemFailure::WriteTerminal)
    );
    assert_eq!(Action::PrintPaused.failure(), Some(SystemFailure::WriteTerminal));
    assert_eq!(Action::ClearPaused.failure(), Some(SystemFailure::WriteTerminal));
    assert_eq!(Action::Finish.failure(), Some(SystemFailure::ClearTerminal));
    assert_eq!(
        Action::Stop { remaining: 1, elapsed: 1 }.failure(),
        Some(SystemFailure::ClearTerminal)
    );
    assert_eq!(Action::Idle.failure(), None);
    assert_eq!(Action::Abort { failure: SystemFailure::WriteTerminal }.failure(), None);
}

#[test]
fn the_exit_status_follows_the_phase() {
    assert_eq!(Phase::Running.exit_code(), None);
    assert_eq!(Phase::Paused.exit_code(), None);
    assert_eq!(Phase::Finished.exit_code(), Some(0));
    assert_eq!(Phase::StoppedByUser.exit_code(), Some(0));
    assert_eq!(Phase::Aborted.exit_code(), Some(1));
}

#[test]
fn a_session_runs_down_and_finishes() {
    let events = vec![Event::Tick; 5];
    let (timer, actions) = run_timer(secs(2), &events);
    assert_eq!(timer.phase(), Phase::Finished);
    assert_eq!(
        actions,
        vec![
            Action::Enter,
            Action::ShowRemaining { seconds: 2 },
            Action::ShowRemaining { seconds: 1 },
            Action::Finish,
        ]
    );
}

#[test]
fn a_session_with_a_pause_and_a_quit() {
    let events = vec![
        Event::Tick,
        Event::Tick,
        key('p'),
        Event::Tick,
        Event::Input(Input::Other),
        Event::Tick,
        key('p'),
        Event::Tick,
        key('q'),
        Event::Tick,
        key('p'),
    ];
    let (timer, actions) = run_timer(secs(60), &events);
    assert_eq!(timer.phase(), Phase::StoppedByUser);
    assert_eq!(timer.remaining(), secs(57));
    assert_eq!(timer.elapsed(), secs(3));
    assert_eq!(
        actions,
        vec![
            Action::Enter,
            Action::ShowRemaining { seconds: 60 },
            Action::ShowRemaining { seconds: 59 },
            Action::PrintPaused,
            Action::Idle,
            Action::Idle,
            Action::Idle,
            Action::ClearPaused,
            Action::ShowRemaining { seconds: 58 },
            Action::Stop { remaining: 57, elapsed: 3 },
        ]
    );
}

#[test]
fn a_session_without_events_only_enters() {
    let (timer, actions) = run_timer(secs(9), &Vec::new());
    assert_eq!(timer, Timer::new(secs(9)));
    assert_eq!(actions, vec![Action::Enter]);
}

#[test]
fn a_session_that_is_not_over_stays_open() {
    let (timer, actions) = run_timer(secs(9), &vec![Event::Tick, key('p')]);
    assert_eq!(timer.phase(), Phase::Paused);
    assert!(!timer.is_over());
    assert_eq!(actions.len(), 3);
}
