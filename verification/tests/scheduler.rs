use metronome::app_state::{
    AppState, Keycode, StateManager, StateTransition, TimerState, WaitDirective,
};
use metronome::beat_spec::{BeatSpec, Event};
use metronome::met_model::MetronomeState;
use metronome::metronome::{get_delay, RecvWait, TimedReceiver};
use metronome::mode::Mode;

#[test]
fn pause_resume_test() {
    // Pause then resume with no time elapsing restores the original
    // deadline.
    let mut mgr: StateManager<()> = StateManager::new((), 0);
    mgr.set_tick(0, 1_000_000);
    assert_eq!(mgr.get_timer(), TimerState::Scheduled(1_000_000));

    mgr.pause(400_000);
    assert_eq!(mgr.get_timer(), TimerState::Paused(600_000));
    mgr.resume(400_000);
    assert_eq!(mgr.get_timer(), TimerState::Scheduled(1_000_000));
}

#[test]
fn toggle_twice_test() {
    // Toggling twice returns the timer to its original state.
    let mut mgr: StateManager<()> = StateManager::new((), 0);
    mgr.set_tick(0, 1_000_000);
    mgr.toggle_paused(250_000);
    assert_eq!(mgr.get_timer(), TimerState::Paused(750_000));
    mgr.toggle_paused(250_000);
    assert_eq!(mgr.get_timer(), TimerState::Scheduled(1_000_000));
}

#[test]
fn pause_lenient_test() {
    // Pausing a timer that is not running changes nothing.
    let mut mgr: StateManager<()> = StateManager::new((), 0);
    mgr.unset_tick();
    mgr.pause(100);
    assert_eq!(mgr.get_timer(), TimerState::Unscheduled);
}

#[test]
fn expired_deadline_test() {
    // A deadline already passed waits no time at all, and is cleared
    // once noticed.
    let mut mgr: StateManager<()> = StateManager::new((), 0);
    mgr.set_tick(0, 500);
    assert_eq!(mgr.wait_directive(200), WaitDirective::WaitFor(300));
    assert_eq!(mgr.wait_directive(700), WaitDirective::WaitFor(0));
    mgr.clear_elapsed(700);
    assert_eq!(mgr.get_timer(), TimerState::Unscheduled);
    assert_eq!(mgr.wait_directive(700), WaitDirective::WaitForever);
}

#[test]
fn timed_receiver_test() {
    let mut tr = TimedReceiver::new(0, 1_000);
    assert_eq!(tr.next_wait(250), RecvWait::Timeout(750));
    tr.pause(250);
    assert_eq!(tr.next_wait(9_999), RecvWait::Forever);
    tr.resume(250);
    assert_eq!(tr.next_wait(250), RecvWait::Timeout(750));
    assert_eq!(tr.next_wait(2_000), RecvWait::Expired);
}

#[test]
fn timed_receiver_toggle_test() {
    // Toggle pauses, toggle again resumes, and a window paused and
    // resumed at the same instant still closes at the same deadline.
    let mut tr = TimedReceiver::new(1_000, 500);
    tr.toggle(1_100);
    assert_eq!(tr.next_wait(1_300), RecvWait::Forever);
    tr.toggle(1_100);
    assert_eq!(tr.next_wait(1_100), RecvWait::Timeout(400));
}

#[test]
fn get_delay_test() {
    // 72 beats per minute with 3 ticks to a beat: 60e9 / 216 whole
    // nanoseconds between ticks.
    let bs = BeatSpec::from_subdiv(4, 3);
    assert_eq!(bs.get_beat_len(), 3);
    assert_eq!(get_delay(&bs, 72), 60_000_000_000 / 216);
}

#[test]
fn full_cycle_test() {
    // End to end: a (4, 1) subdivision grid driven by the scheduler
    // with no keyboard input fires exactly 4 ticks before the tick
    // index wraps back to 0.
    let grid = BeatSpec::from_subdiv(4, 1);
    let met = MetronomeState::new(&grid, 50, 120);
    let mut mgr = StateManager::new(Mode::Metronome(met), 0);

    let mut mode = match mgr.take_transition() {
        StateTransition::To(m) => m,
        _ => panic!("no initial mode"),
    };

    let mut now: u64 = 0;
    let mut fired: Vec<Event> = vec![];
    let mut indices: Vec<usize> = vec![];
    while fired.len() < 4 {
        // No input ever arrives, so every wait ends in a tick.
        match mgr.wait_directive(now) {
            WaitDirective::WaitFor(rem) => now += rem,
            WaitDirective::WaitForever => panic!("scheduler stopped ticking"),
        }
        mgr.clear_elapsed(now);
        mode.tick(&mut mgr, now);
        match mgr.take_transition() {
            StateTransition::NoChange => {}
            _ => panic!("unexpected transition"),
        }
        if let Mode::Metronome(m) = &mut mode {
            fired.push(m.take_pending_event().expect("tick fired no event"));
            indices.push(m.get_tick_number());
        } else {
            panic!("mode changed");
        }
    }

    assert_eq!(
        fired,
        vec![Event::Beep(0), Event::Beep(1), Event::Beep(1), Event::Beep(1)]
    );
    // After the fourth tick the index has wrapped to 0, and not before.
    assert_eq!(indices, vec![1, 2, 3, 0]);
}

#[test]
fn keypress_pause_play_test() {
    // `p` pauses the tick timer, `P` starts it again at the preserved
    // deadline.
    let grid = BeatSpec::from_subdiv(4, 1);
    let met = MetronomeState::new(&grid, 50, 120);
    let mut mgr = StateManager::new(Mode::Metronome(met), 0);
    let mut mode = match mgr.take_transition() {
        StateTransition::To(m) => m,
        _ => panic!("no initial mode"),
    };

    mode.tick(&mut mgr, 0);
    let delay = 60_000_000_000 / 120;
    assert_eq!(mgr.get_timer(), TimerState::Scheduled(delay));

    mode.keypress(&mut mgr, Keycode::Key(b'p'), 100);
    assert_eq!(mgr.get_timer(), TimerState::Paused(delay - 100));
    mode.keypress(&mut mgr, Keycode::Key(b'P'), 200);
    assert_eq!(mgr.get_timer(), TimerState::Scheduled(delay + 100));
}

#[test]
fn keypress_quit_test() {
    let grid = BeatSpec::from_subdiv(4, 1);
    let met = MetronomeState::new(&grid, 50, 120);
    let mut mgr = StateManager::new(Mode::Metronome(met), 0);
    let mut mode = match mgr.take_transition() {
        StateTransition::To(m) => m,
        _ => panic!("no initial mode"),
    };

    mode.keypress(&mut mgr, Keycode::Key(b'q'), 0);
    assert!(matches!(mgr.take_transition(), StateTransition::Exit));

    // The end of input quits just like an explicit quit request.
    mode.keypress(&mut mgr, Keycode::NoKey, 0);
    assert!(matches!(mgr.take_transition(), StateTransition::Exit));
}
