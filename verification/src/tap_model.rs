//! Tap mode: the user taps a key repeatedly, and the average interval
//! between the taps becomes the new tempo when the mode is left.

use crate::app_state::{Keycode, StateManager, StateTransition, TimerState};
use crate::beat_spec::{BeatSpec, GridView};
use crate::constants::DEF_TEMPO;
use crate::met_model::MetronomeState;
use crate::metronome::NANOS_PER_MINUTE;
use crate::mode::Mode;
use vstd::prelude::*;

verus! {

/// The tempo, in beats per minute, that a list of tap instants implies:
/// one beat per average interval between consecutive taps. With fewer
/// than two taps, or taps too close together to measure, there is not
/// enough information.
pub open spec fn tap_tempo(times: Seq<u64>) -> Option<u64> {
    if times.len() < 2 {
        None
    } else {
        let first = times[0];
        let last = times.last();
        let delta = if last >= first {
            (last - first) as nat
        } else {
            0
        };
        let per_event = delta / ((times.len() - 1) as nat);
        if per_event == 0 {
            None
        } else {
            Some(((NANOS_PER_MINUTE as nat) / per_event) as u64)
        }
    }
}

/// The tempo tap mode hands back to the metronome: the tapped tempo,
/// clamped to at least one beat per minute and at most what a `u32`
/// holds, or the default tempo where taps gave no answer.
pub open spec fn tap_exit_tempo(times: Seq<u64>) -> u32 {
    match tap_tempo(times) {
        None => DEF_TEMPO,
        Some(b) => if b < 1 {
            1u32
        } else if b > u32::MAX {
            u32::MAX
        } else {
            b as u32
        },
    }
}

/// State of the tap mode.
pub struct TapState {
    // Times at which each tap occurred, in nanoseconds.
    times: Vec<u64>,
    // The rhythm to create when we go back to Metronome mode.
    rhythm: BeatSpec,
    // The volume at which to produce tick sounds, in percent.
    volume: u32,
}

impl TapState {
    /// The recorded tap instants, oldest first.
    pub closed spec fn times(self) -> Seq<u64> {
        self.times@
    }

    /// The rhythm this mode carries for the metronome.
    pub closed spec fn grid(self) -> GridView {
        self.rhythm@
    }

    /// The volume this mode carries for the metronome, in percent.
    pub closed spec fn volume(self) -> u32 {
        self.volume
    }

    /// The mode's internal invariant.
    pub closed spec fn wf(self) -> bool {
        self.rhythm.wf() && self.volume <= 100
    }

    /// Constructs a new TapState given information from the previous
    /// MetronomeState. The first tap occurs the moment this state is
    /// invoked.
    pub fn new(rhythm: BeatSpec, volume: u32, now: u64) -> (r: Self)
        requires
            rhythm.wf(),
            volume <= 100,
        ensures
            r.times() == seq![now],
            r.grid() == rhythm@,
            r.volume() == volume,
            r.wf(),
    {
        let r = TapState { times: vec![now], rhythm, volume };
        proof {
            assert(r.times@ =~= seq![now]);
        }
        r
    }

    /// The volume this mode carries for the metronome, in percent.
    pub fn get_volume(&self) -> (r: u32)
        ensures
            r == self.volume(),
    {
        self.volume
    }

    /// Calculates the current tempo in beats per minute from the received
    /// tap events. Returns None if there is not enough information to
    /// solve the problem.
    pub fn calc_tempo(&self) -> (r: Option<u64>)
        ensures
            r == tap_tempo(self.times()),
    {
        if self.times.len() < 2 {
            return None;
        }
        // To get the average time between consecutive events, we only
        // have to look at the first and last events and the number of
        // events between them; the times of the other events cancel out.
        let first = self.times[0];
        let last = self.times[self.times.len() - 1];
        let delta = if last >= first {
            last - first
        } else {
            0
        };
        // There are n actual tap events, but that equates to only n - 1
        // intervals between them (fencepost problem).
        let per_event = delta / ((self.times.len() - 1) as u64);
        if per_event == 0 {
            None
        } else {
            Some(NANOS_PER_MINUTE / per_event)
        }
    }

    /// Leaves Tap mode and returns to Metronome mode at the tapped tempo.
    fn leave(&self, mgr: &mut StateManager<Mode>, now: u64)
        requires
            self.wf(),
        ensures
            final(mgr).timer() == TimerState::Scheduled(now),
            final(mgr).pending() matches StateTransition::To(m) && m matches Mode::Metronome(met)
                && met.grid() == self.grid() && met.volume() == self.volume() && met.tempo()
                == tap_exit_tempo(self.times()) && met.tick_no() == 0 && met.wf(),
    {
        let tempo = match self.calc_tempo() {
            None => DEF_TEMPO,
            Some(b) => if b < 1 {
                1
            } else if b > u32::MAX as u64 {
                u32::MAX
            } else {
                b as u32
            },
        };
        let met = MetronomeState::new(&self.rhythm, self.volume, tempo);
        mgr.set_state(Mode::Metronome(met), now);
    }

    /// Runs one timer tick: tap mode needs no ticks, so none is kept
    /// scheduled.
    pub fn do_tick(&mut self, mgr: &mut StateManager<Mode>, now: u64)
        requires
            old(self).wf(),
        ensures
            *final(self) == *old(self),
            final(mgr).timer() == TimerState::Unscheduled,
            final(mgr).pending() == old(mgr).pending(),
    {
        let _ = now;
        mgr.unset_tick();
    }

    /// Interprets a key-press: a comma records a tap, Control-C or the
    /// end of input quits, and any other key returns to the metronome at
    /// the tapped tempo.
    pub fn do_keypress(&mut self, mgr: &mut StateManager<Mode>, key: Keycode, now: u64)
        requires
            old(self).wf(),
        ensures
            final(self).wf(),
            final(self).grid() == old(self).grid(),
            final(self).volume() == old(self).volume(),
            match key {
                Keycode::NoKey => {
                    &&& final(self).times() == old(self).times()
                    &&& final(mgr).pending() is Exit
                    &&& final(mgr).timer() == old(mgr).timer()
                },
                Keycode::Key(b) => if b == 44 {
                    &&& final(self).times() == old(self).times().push(now)
                    &&& final(mgr).timer() == TimerState::Unscheduled
                    &&& final(mgr).pending() == old(mgr).pending()
                } else if b == 3 {
                    &&& final(self).times() == old(self).times()
                    &&& final(mgr).pending() is Exit
                    &&& final(mgr).timer() == old(mgr).timer()
                } else {
                    &&& final(self).times() == old(self).times()
                    &&& final(mgr).timer() == TimerState::Scheduled(now)
                    &&& (final(mgr).pending() matches StateTransition::To(m) && m matches
                        Mode::Metronome(met) && met.grid() == old(self).grid() && met.volume()
                        == old(self).volume() && met.tempo() == tap_exit_tempo(old(self).times())
                        && met.tick_no() == 0 && met.wf())
                },
            },
    {
        match key {
            Keycode::Key(b) => {
                if b == 44 {
                    // Comma: record a tap.
                    self.times.push(now);
                    mgr.unset_tick();
                } else if b == 3 {
                    // Control-C: exit the program.
                    mgr.exit();
                } else {
                    self.leave(mgr, now);
                }
            },
            Keycode::NoKey => {
                // Input closed: treat like an explicit quit.
                mgr.exit();
            },
        }
    }
}

} // verus!
