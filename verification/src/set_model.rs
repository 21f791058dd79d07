//! Set mode: the user types a tempo digit by digit; the typed number
//! becomes the new tempo when the mode is left.

use crate::app_state::{Keycode, StateManager, StateTransition, TimerState};
use crate::beat_spec::{BeatSpec, GridView};
use crate::constants::TEMPO_MAX;
use crate::met_model::MetronomeState;
use crate::mode::Mode;
use vstd::prelude::*;

verus! {

/// The tempo set mode hands back to the metronome: the typed number, or
/// one beat per minute where nothing was typed, since the metronome
/// cannot run at a tempo of zero.
pub open spec fn set_exit_tempo(typed: u32) -> u32 {
    if typed == 0 {
        1u32
    } else {
        typed
    }
}

/// State of the set mode.
pub struct SetState {
    // Number the user has typed thus far. Only integral tempos can be
    // specified.
    tempo: u32,
    // Rhythm to send back to the MetronomeState.
    rhythm: BeatSpec,
    // Volume to send back to the MetronomeState, in percent.
    volume: u32,
}

impl SetState {
    /// The number typed so far.
    pub closed spec fn typed_tempo(self) -> u32 {
        self.tempo
    }

    /// The rhythm this mode carries for the metronome.
    pub closed spec fn grid(self) -> GridView {
        self.rhythm@
    }

    /// The volume this mode carries for the metronome, in percent.
    pub closed spec fn volume(self) -> u32 {
        self.volume
    }

    /// The mode's internal invariant.
    pub closed spec fn wf(self) -> bool {
        self.rhythm.wf() && self.volume <= 100
    }

    /// Constructs a new SetState given information from the previous
    /// MetronomeState, optionally with the first digit already typed.
    pub fn new(rhythm: BeatSpec, volume: u32, first_digit: Option<u32>) -> (r: Self)
        requires
            rhythm.wf(),
            volume <= 100,
        ensures
            r.typed_tempo() == (match first_digit {
                Some(d) => d,
                None => 0u32,
            }),
            r.grid() == rhythm@,
            r.volume() == volume,
            r.wf(),
    {
        let tempo = match first_digit {
            Some(d) => d,
            None => 0,
        };
        SetState { tempo, rhythm, volume }
    }

    /// The number typed so far.
    pub fn get_tempo(&self) -> (r: u32)
        ensures
            r == self.typed_tempo(),
    {
        self.tempo
    }

    /// The volume this mode carries for the metronome, in percent.
    pub fn get_volume(&self) -> (r: u32)
        ensures
            r == self.volume(),
    {
        self.volume
    }

    /// Leaves Set mode and returns to Metronome mode at the typed tempo.
    fn leave(&self, mgr: &mut StateManager<Mode>, now: u64)
        requires
            self.wf(),
        ensures
            final(mgr).timer() == TimerState::Scheduled(now),
            final(mgr).pending() matches StateTransition::To(m) && m matches Mode::Metronome(met)
                && met.grid() == self.grid() && met.volume() == self.volume() && met.tempo()
                == set_exit_tempo(self.typed_tempo()) && met.tick_no() == 0 && met.wf(),
    {
        let tempo = if self.tempo == 0 {
            1
        } else {
            self.tempo
        };
        let met = MetronomeState::new(&self.rhythm, self.volume, tempo);
        mgr.set_state(Mode::Metronome(met), now);
    }

    /// Runs one timer tick: set mode needs no ticks, so none is kept
    /// scheduled.
    pub fn do_tick(&mut self, mgr: &mut StateManager<Mode>, now: u64)
        requires
            old(self).wf(),
        ensures
            *final(self) == *old(self),
            final(mgr).timer() == TimerState::Unscheduled,
            final(mgr).pending() == old(mgr).pending(),
    {
        let _ = now;
        mgr.unset_tick();
    }

    /// Interprets a key-press: a digit extends the typed tempo, and a
    /// number grown so large that another digit could not keep it a valid
    /// tempo is submitted at once; Control-C or the end of input quits;
    /// any other key returns to the metronome at the typed tempo.
    pub fn do_keypress(&mut self, mgr: &mut StateManager<Mode>, key: Keycode, now: u64)
        requires
            old(self).wf(),
        ensures
            final(self).wf(),
            final(self).grid() == old(self).grid(),
            final(self).volume() == old(self).volume(),
            match key {
                Keycode::NoKey => {
                    &&& final(self).typed_tempo() == old(self).typed_tempo()
                    &&& final(mgr).pending() is Exit
                    &&& final(mgr).timer() == old(mgr).timer()
                },
                Keycode::Key(b) => if b == 3 {
                    &&& final(self).typed_tempo() == old(self).typed_tempo()
                    &&& final(mgr).pending() is Exit
                    &&& final(mgr).timer() == old(mgr).timer()
                } else if 48 <= b < 57 {
                    ({
                        let t = old(self).typed_tempo() as int * 10 + (b - 48);
                        if t * 10 > TEMPO_MAX as int {
                            let stored = if t > u32::MAX as int {
                                u32::MAX as int
                            } else {
                                t
                            };
                            &&& final(self).typed_tempo() == stored
                            &&& final(mgr).timer() == TimerState::Scheduled(now)
                            &&& (final(mgr).pending() matches StateTransition::To(m) && m matches
                                Mode::Metronome(met) && met.grid() == old(self).grid()
                                && met.volume() == old(self).volume() && met.tempo() == stored
                                && met.tick_no() == 0 && met.wf())
                        } else {
                            &&& final(self).typed_tempo() == t
                            &&& final(mgr).timer() == TimerState::Unscheduled
                            &&& final(mgr).pending() == old(mgr).pending()
                        }
                    })
                } else {
                    &&& final(self).typed_tempo() == old(self).typed_tempo()
                    &&& final(mgr).timer() == TimerState::Scheduled(now)
                    &&& (final(mgr).pending() matches StateTransition::To(m) && m matches
                        Mode::Metronome(met) && met.grid() == old(self).grid() && met.volume()
                        == old(self).volume() && met.tempo() == set_exit_tempo(
                        old(self).typed_tempo(),
                    ) && met.tick_no() == 0 && met.wf())
                },
            },
    {
        match key {
            Keycode::Key(b) => {
                if b == 3 {
                    // Control-C: exit the program.
                    mgr.exit();
                } else if 48 <= b && b < 57 {
                    let digit = (b - 48) as u64;
                    let grown: u64 = (self.tempo as u64) * 10 + digit;
                    if grown * 10 > TEMPO_MAX as u64 {
                        // Any more keys typed by the user would result in
                        // an invalid tempo; go ahead and submit for them.
                        self.tempo = if grown > u32::MAX as u64 {
                            u32::MAX
                        } else {
                            grown as u32
                        };
                        self.leave(mgr, now);
                    } else {
                        self.tempo = grown as u32;
                        mgr.unset_tick();
                    }
                } else {
                    self.leave(mgr, now);
                }
            },
            Keycode::NoKey => {
                // Input closed: treat like an explicit quit.
                mgr.exit();
            },
        }
    }
}

} // verus!
