//! The closed set of modes the scheduler drives: the metronome itself,
//! tap mode, and set mode. Keeping the set closed makes the transition
//! table exhaustive.

use crate::app_state::{AppState, Keycode, StateManager};
use crate::met_model::MetronomeState;
use crate::set_model::SetState;
use crate::tap_model::TapState;
use vstd::prelude::*;

verus! {

/// The active mode of the application.
pub enum Mode {
    /// Beating out the rhythm.
    Metronome(MetronomeState),
    /// Learning the tempo from the user's taps.
    Tap(TapState),
    /// Reading a tempo typed digit by digit.
    SetTempo(SetState),
}

impl AppState for Mode {
    open spec fn wf(self) -> bool {
        match self {
            Mode::Metronome(m) => m.wf(),
            Mode::Tap(t) => t.wf(),
            Mode::SetTempo(s) => s.wf(),
        }
    }

    fn tick(&mut self, mgr: &mut StateManager<Mode>, now: u64) {
        match self {
            Mode::Metronome(m) => m.do_tick(mgr, now),
            Mode::Tap(t) => t.do_tick(mgr, now),
            Mode::SetTempo(s) => s.do_tick(mgr, now),
        }
    }

    fn keypress(&mut self, mgr: &mut StateManager<Mode>, key: Keycode, now: u64) {
        match self {
            Mode::Metronome(m) => m.do_keypress(mgr, key, now),
            Mode::Tap(t) => t.do_keypress(mgr, key, now),
            Mode::SetTempo(s) => s.do_keypress(mgr, key, now),
        }
    }
}

} // verus!
