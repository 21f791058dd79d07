use metronome::app_state::{AppState, Keycode, StateManager, StateTransition, TimerState};
use metronome::beat_spec::BeatSpec;
use metronome::met_model::MetronomeState;
use metronome::mode::Mode;
use metronome::set_model::SetState;
use metronome::tap_model::TapState;

fn fresh_metronome() -> (Mode, StateManager<Mode>) {
    let grid = BeatSpec::from_subdiv(4, 1);
    let met = MetronomeState::new(&grid, 50, 120);
    let mut mgr = StateManager::new(Mode::Metronome(met), 0);
    let mode = match mgr.take_transition() {
        StateTransition::To(m) => m,
        _ => panic!("no initial mode"),
    };
    (mode, mgr)
}

#[test]
fn volume_adjust_test() {
    let (mut mode, mut mgr) = fresh_metronome();
    mode.keypress(&mut mgr, Keycode::Key(b'k'), 0);
    mode.keypress(&mut mgr, Keycode::Key(b'k'), 0);
    if let Mode::Metronome(m) = &mode {
        assert_eq!(m.get_volume(), 70);
    } else {
        panic!("mode changed");
    }
    // The volume never climbs past full scale.
    for _ in 0..10 {
        mode.keypress(&mut mgr, Keycode::Key(b'k'), 0);
    }
    if let Mode::Metronome(m) = &mode {
        assert_eq!(m.get_volume(), 100);
    } else {
        panic!("mode changed");
    }
    // Nor below silence.
    for _ in 0..15 {
        mode.keypress(&mut mgr, Keycode::Key(b'j'), 0);
    }
    if let Mode::Metronome(m) = &mode {
        assert_eq!(m.get_volume(), 0);
    } else {
        panic!("mode changed");
    }
}

#[test]
fn tempo_adjust_test() {
    let (mut mode, mut mgr) = fresh_metronome();
    mode.keypress(&mut mgr, Keycode::Key(b'l'), 0);
    if let Mode::Metronome(m) = &mode {
        assert_eq!(m.get_tempo(), 121);
    } else {
        panic!("mode changed");
    }
    // The arrow keys adjust tempo too, and clamp at the minimum.
    for _ in 0..200 {
        mode.keypress(&mut mgr, Keycode::Key(b'h'), 0);
    }
    if let Mode::Metronome(m) = &mode {
        assert_eq!(m.get_tempo(), 10);
    } else {
        panic!("mode changed");
    }
}

#[test]
fn sync_test() {
    let (mut mode, mut mgr) = fresh_metronome();
    mode.tick(&mut mgr, 0);
    mode.tick(&mut mgr, 0);
    if let Mode::Metronome(m) = &mut mode {
        m.take_pending_event();
        assert_eq!(m.get_tick_number(), 2);
    } else {
        panic!("mode changed");
    }
    // `.` snaps the measure back to its downbeat at once.
    mode.keypress(&mut mgr, Keycode::Key(b'.'), 777);
    if let Mode::Metronome(m) = &mode {
        assert_eq!(m.get_tick_number(), 0);
    } else {
        panic!("mode changed");
    }
    assert_eq!(mgr.get_timer(), TimerState::Scheduled(777));
}

#[test]
fn enter_tap_mode_test() {
    let (mut mode, mut mgr) = fresh_metronome();
    mode.keypress(&mut mgr, Keycode::Key(b','), 1_000);
    match mgr.take_transition() {
        StateTransition::To(Mode::Tap(_)) => {}
        _ => panic!("comma did not enter tap mode"),
    }
}

#[test]
fn tap_tempo_test() {
    // Taps half a second apart make 120 beats per minute.
    let grid = BeatSpec::from_subdiv(4, 1);
    let mut tap = TapState::new(grid, 50, 0);
    let mut mgr: StateManager<Mode> = StateManager::new(fresh_metronome().0, 0);
    mgr.take_transition();

    tap.do_keypress(&mut mgr, Keycode::Key(b','), 500_000_000);
    tap.do_keypress(&mut mgr, Keycode::Key(b','), 1_000_000_000);
    assert_eq!(tap.calc_tempo(), Some(120));

    // Any other key returns to the metronome at the tapped tempo.
    tap.do_keypress(&mut mgr, Keycode::Key(b'x'), 1_100_000_000);
    match mgr.take_transition() {
        StateTransition::To(Mode::Metronome(m)) => {
            assert_eq!(m.get_tempo(), 120);
            assert_eq!(m.get_volume(), 50);
        }
        _ => panic!("tap mode did not return to the metronome"),
    }
}

#[test]
fn tap_too_few_test() {
    // A single tap gives no tempo; leaving falls back to the default.
    let grid = BeatSpec::from_subdiv(4, 1);
    let tap = TapState::new(grid, 50, 0);
    assert_eq!(tap.calc_tempo(), None);

    let mut tap = tap;
    let mut mgr: StateManager<Mode> = StateManager::new(fresh_metronome().0, 0);
    mgr.take_transition();
    tap.do_keypress(&mut mgr, Keycode::Key(b'x'), 10);
    match mgr.take_transition() {
        StateTransition::To(Mode::Metronome(m)) => assert_eq!(m.get_tempo(), 120),
        _ => panic!("tap mode did not return to the metronome"),
    }
}

#[test]
fn set_mode_digits_test() {
    // Typing `1`, `7`, then a terminator sets a tempo of 17.
    let grid = BeatSpec::from_subdiv(4, 1);
    let mut set = SetState::new(grid, 50, Some(1));
    let mut mgr: StateManager<Mode> = StateManager::new(fresh_metronome().0, 0);
    mgr.take_transition();

    set.do_keypress(&mut mgr, Keycode::Key(b'7'), 0);
    match mgr.take_transition() {
        StateTransition::NoChange => {}
        _ => panic!("digit ended set mode early"),
    }
    set.do_keypress(&mut mgr, Keycode::Key(b'\n'), 0);
    match mgr.take_transition() {
        StateTransition::To(Mode::Metronome(m)) => assert_eq!(m.get_tempo(), 17),
        _ => panic!("set mode did not return to the metronome"),
    }
}

#[test]
fn set_mode_submit_test() {
    // Once another digit could no longer make a valid tempo, the number
    // is submitted at once: `3` then `1` makes 31, and 310 would pass
    // the maximum.
    let grid = BeatSpec::from_subdiv(4, 1);
    let mut set = SetState::new(grid, 50, Some(3));
    let mut mgr: StateManager<Mode> = StateManager::new(fresh_metronome().0, 0);
    mgr.take_transition();

    set.do_keypress(&mut mgr, Keycode::Key(b'1'), 0);
    match mgr.take_transition() {
        StateTransition::To(Mode::Metronome(m)) => assert_eq!(m.get_tempo(), 31),
        _ => panic!("large tempo was not submitted"),
    }
}

#[test]
fn set_mode_empty_test() {
    // Leaving set mode with nothing typed cannot stop the metronome:
    // the tempo becomes the smallest that still runs.
    let grid = BeatSpec::from_subdiv(4, 1);
    let mut set = SetState::new(grid, 50, None);
    let mut mgr: StateManager<Mode> = StateManager::new(fresh_metronome().0, 0);
    mgr.take_transition();

    set.do_keypress(&mut mgr, Keycode::Key(b' '), 0);
    match mgr.take_transition() {
        StateTransition::To(Mode::Metronome(m)) => assert_eq!(m.get_tempo(), 1),
        _ => panic!("set mode did not return to the metronome"),
    }
}

#[test]
fn set_mode_quit_test() {
    let grid = BeatSpec::from_subdiv(4, 1);
    let mut set = SetState::new(grid, 50, None);
    let mut mgr: StateManager<Mode> = StateManager::new(fresh_metronome().0, 0);
    mgr.take_transition();

    set.do_keypress(&mut mgr, Keycode::NoKey, 0);
    assert!(matches!(mgr.take_transition(), StateTransition::Exit));
}
