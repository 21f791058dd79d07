//! Metronome mode: plays the rhythm grid tick by tick, keeps tempo and
//! volume settings, and dispatches recognized key commands.

use crate::app_state::{
    pause_spec, resume_spec, toggle_spec, Keycode, StateManager, StateTransition, TimerState,
};
use crate::beat_spec::{BeatSpec, Event, GridView};
use crate::constants::{TEMPO_MAX, TEMPO_MIN, VOL_ADJUST_PERCENT};
use crate::controller::{
    any_prefix, first_exact, standard_bindings, ControllerMsg, ControllerState,
};
use crate::metronome::{get_delay, NANOS_PER_MINUTE};
use crate::mode::Mode;
use crate::set_model::SetState;
use crate::tap_model::TapState;
use vstd::prelude::*;

verus! {

/// Clamping an integer into an inclusive range.
pub open spec fn clamp_i(v: int, lo: int, hi: int) -> int {
    if v < lo {
        lo
    } else if v > hi {
        hi
    } else {
        v
    }
}

/// The recognizer runs on the standard binding table.
pub open spec fn standard_table(cs: ControllerState) -> bool {
    cs.bindings_view().len() == standard_bindings().len() && forall|i: int|
        0 <= i < cs.bindings_view().len() ==> (#[trigger] cs.bindings_view()[i].0@,
        cs.bindings_view()[i].1) == standard_bindings()[i]
}

/// State of the metronome at any given time.
pub struct MetronomeState {
    // The rhythm the metronome is beating out.
    rhythm: BeatSpec,
    // The index of the next tick to be played by the metronome.
    tick_number: usize,
    // The current volume setting, in percent.
    volume: u32,
    // The current tempo setting, in beats per minute.
    tempo: u32,
    // State of the key recognizer.
    controller: ControllerState,
    // The event of the tick played last, waiting to be rendered.
    pending_event: Option<Event>,
}

impl MetronomeState {
    /// The rhythm being beaten out.
    pub closed spec fn grid(self) -> GridView {
        self.rhythm@
    }

    /// The index of the next tick to be played.
    pub closed spec fn tick_no(self) -> nat {
        self.tick_number as nat
    }

    /// The current volume, in percent.
    pub closed spec fn volume(self) -> u32 {
        self.volume
    }

    /// The current tempo, in beats per minute.
    pub closed spec fn tempo(self) -> u32 {
        self.tempo
    }

    /// The key recognizer's state.
    pub closed spec fn recognizer(self) -> ControllerState {
        self.controller
    }

    /// The event of the tick played last, not yet handed out.
    pub closed spec fn pending_event(self) -> Option<Event> {
        self.pending_event
    }

    /// The mode's internal invariant: a well-formed rhythm, a tick index
    /// inside it, a positive tempo, a volume within scale, and the
    /// standard key bindings.
    pub closed spec fn wf(self) -> bool {
        &&& self.rhythm.wf()
        &&& (self.tick_number as nat) < self.rhythm@.ticks.len()
        &&& self.tempo >= 1
        &&& self.volume <= 100
        &&& standard_table(self.controller)
    }

    /// Creates a metronome over the given rhythm and settings.
    pub fn new(rhythm: &BeatSpec, volume: u32, tempo: u32) -> (r: MetronomeState)
        requires
            rhythm.wf(),
            volume <= 100,
            tempo >= 1,
        ensures
            r.grid() == rhythm@,
            r.tick_no() == 0,
            r.volume() == volume,
            r.tempo() == tempo,
            r.pending_event() is None,
            r.recognizer().partial_view() == Seq::<u8>::empty(),
            r.wf(),
    {
        MetronomeState {
            rhythm: rhythm.clone(),
            tick_number: 0,
            volume,
            tempo,
            controller: ControllerState::new(),
            pending_event: None,
        }
    }

    /// The rhythm being beaten out.
    pub fn get_rhythm(&self) -> (r: &BeatSpec)
        ensures
            r@ == self.grid(),
    {
        &self.rhythm
    }

    /// The index of the next tick to be played.
    pub fn get_tick_number(&self) -> (r: usize)
        ensures
            r as nat == self.tick_no(),
    {
        self.tick_number
    }

    /// The current volume, in percent.
    pub fn get_volume(&self) -> (r: u32)
        ensures
            r == self.volume(),
    {
        self.volume
    }

    /// The current tempo, in beats per minute.
    pub fn get_tempo(&self) -> (r: u32)
        ensures
            r == self.tempo(),
    {
        self.tempo
    }

    /// The event of the tick played last, if any; handing it out clears
    /// it, so each tick is rendered once.
    pub fn take_pending_event(&mut self) -> (r: Option<Event>)
        ensures
            r == old(self).pending_event(),
            final(self).pending_event() is None,
            final(self).grid() == old(self).grid(),
            final(self).tick_no() == old(self).tick_no(),
            final(self).volume() == old(self).volume(),
            final(self).tempo() == old(self).tempo(),
            final(self).recognizer() == old(self).recognizer(),
            old(self).wf() ==> final(self).wf(),
    {
        let r = self.pending_event;
        self.pending_event = None;
        r
    }

    /// Runs one timer tick: remembers the event of the current tick for
    /// rendering, steps to the next tick of the measure, and schedules
    /// the following tick one tick length away.
    pub fn do_tick(&mut self, mgr: &mut StateManager<Mode>, now: u64)
        requires
            old(self).wf(),
        ensures
            final(self).wf(),
            final(self).pending_event() == Some(
                old(self).grid().ticks[old(self).tick_no() as int],
            ),
            final(self).tick_no() == (old(self).tick_no() + 1) % old(self).grid().ticks.len(),
            final(self).grid() == old(self).grid(),
            final(self).volume() == old(self).volume(),
            final(self).tempo() == old(self).tempo(),
            final(self).recognizer() == old(self).recognizer(),
            final(mgr).timer() == TimerState::Scheduled(
                now.saturating_add(
                    ((NANOS_PER_MINUTE as nat) / (old(self).tempo() as nat
                        * old(self).grid().beat_len)) as u64,
                ),
            ),
            final(mgr).pending() == old(mgr).pending(),
    {
        let ticks = self.rhythm.get_ticks();
        let tick = ticks[self.tick_number];
        self.pending_event = Some(tick);
        self.tick_number = (self.tick_number + 1) % ticks.len();
        let delay = get_delay(&self.rhythm, self.tempo);
        mgr.set_tick(now, delay);
    }

    /// Interprets a key-press. The byte extends the recognizer's partial
    /// match; a completed binding runs its command: pausing, resuming or
    /// toggling the tick timer, stepping volume or tempo within their
    /// bounds, re-synchronizing the downbeat, switching to tap or set
    /// mode, or quitting. The end of input quits like an explicit quit
    /// request.
    pub fn do_keypress(&mut self, mgr: &mut StateManager<Mode>, key: Keycode, now: u64)
        requires
            old(self).wf(),
        ensures
            final(self).wf(),
            final(self).grid() == old(self).grid(),
            final(self).pending_event() == old(self).pending_event(),
            match key {
                Keycode::NoKey => {
                    &&& final(mgr).pending() is Exit
                    &&& final(mgr).timer() == old(mgr).timer()
                    &&& final(self).volume() == old(self).volume()
                    &&& final(self).tempo() == old(self).tempo()
                    &&& final(self).tick_no() == old(self).tick_no()
                    &&& final(self).recognizer() == old(self).recognizer()
                },
                Keycode::Key(byte) => ({
                    let bs = old(self).recognizer().bindings_view();
                    let q = old(self).recognizer().partial_view().push(byte);
                    let k = first_exact(bs, q, 0);
                    &&& final(self).recognizer().bindings_view() == bs
                    &&& final(self).recognizer().partial_view() == (if k >= 0 || !any_prefix(
                        bs,
                        q,
                    ) {
                        Seq::<u8>::empty()
                    } else {
                        q
                    })
                    &&& (k < 0 ==> final(self).volume() == old(self).volume() && final(self).tempo()
                        == old(self).tempo() && final(self).tick_no() == old(self).tick_no()
                        && final(mgr).timer() == old(mgr).timer() && final(mgr).pending() == old(
                        mgr,
                    ).pending())
                    &&& (k >= 0 ==> match bs[k].1 {
                        ControllerMsg::Pause => {
                            &&& final(self).volume() == old(self).volume()
                            &&& final(self).tempo() == old(self).tempo()
                            &&& final(self).tick_no() == old(self).tick_no()
                            &&& final(mgr).timer() == pause_spec(old(mgr).timer(), now)
                            &&& final(mgr).pending() == old(mgr).pending()
                        },
                        ControllerMsg::Play => {
                            &&& final(self).volume() == old(self).volume()
                            &&& final(self).tempo() == old(self).tempo()
                            &&& final(self).tick_no() == old(self).tick_no()
                            &&& final(mgr).timer() == resume_spec(old(mgr).timer(), now)
                            &&& final(mgr).pending() == old(mgr).pending()
                        },
                        ControllerMsg::Toggle => {
                            &&& final(self).volume() == old(self).volume()
                            &&& final(self).tempo() == old(self).tempo()
                            &&& final(self).tick_no() == old(self).tick_no()
                            &&& final(mgr).timer() == toggle_spec(old(mgr).timer(), now)
                            &&& final(mgr).pending() == old(mgr).pending()
                        },
                        ControllerMsg::AdjustVolume(st) => {
                            &&& final(self).volume() == clamp_i(
                                old(self).volume() + st * (VOL_ADJUST_PERCENT as int),
                                0,
                                100,
                            )
                            &&& final(self).tempo() == old(self).tempo()
                            &&& final(self).tick_no() == old(self).tick_no()
                            &&& final(mgr).timer() == old(mgr).timer()
                            &&& final(mgr).pending() == old(mgr).pending()
                        },
                        ControllerMsg::AdjustTempo(st) => {
                            &&& final(self).tempo() == clamp_i(
                                old(self).tempo() + st,
                                TEMPO_MIN as int,
                                TEMPO_MAX as int,
                            )
                            &&& final(self).volume() == old(self).volume()
                            &&& final(self).tick_no() == old(self).tick_no()
                            &&& final(mgr).timer() == old(mgr).timer()
                            &&& final(mgr).pending() == old(mgr).pending()
                        },
                        ControllerMsg::Sync => {
                            &&& final(self).tick_no() == 0
                            &&& final(self).volume() == old(self).volume()
                            &&& final(self).tempo() == old(self).tempo()
                            &&& final(mgr).timer() == TimerState::Scheduled(now)
                            &&& final(mgr).pending() == old(mgr).pending()
                        },
                        ControllerMsg::TapMode => {
                            &&& final(self).volume() == old(self).volume()
                            &&& final(self).tempo() == old(self).tempo()
                            &&& final(self).tick_no() == old(self).tick_no()
                            &&& final(mgr).timer() == TimerState::Scheduled(now)
                            &&& (final(mgr).pending() matches StateTransition::To(m) && m matches
                                Mode::Tap(t) && t.times() == seq![now] && t.grid() == old(
                                self,
                            ).grid() && t.volume() == old(self).volume() && t.wf())
                        },
                        ControllerMsg::SetMode(d) => {
                            &&& final(self).volume() == old(self).volume()
                            &&& final(self).tempo() == old(self).tempo()
                            &&& final(self).tick_no() == old(self).tick_no()
                            &&& final(mgr).timer() == TimerState::Scheduled(now)
                            &&& (final(mgr).pending() matches StateTransition::To(m) && m matches
                                Mode::SetTempo(st2) && st2.typed_tempo() == (match d {
                                Some(x) => x,
                                None => 0u32,
                            }) && st2.grid() == old(self).grid() && st2.volume() == old(
                                self,
                            ).volume() && st2.wf())
                        },
                        ControllerMsg::Quit => {
                            &&& final(self).volume() == old(self).volume()
                            &&& final(self).tempo() == old(self).tempo()
                            &&& final(self).tick_no() == old(self).tick_no()
                            &&& final(mgr).pending() is Exit
                            &&& final(mgr).timer() == old(mgr).timer()
                        },
                    })
                }),
            },
    {
        let byte = match key {
            Keycode::Key(b) => b,
            Keycode::NoKey => {
                // stdin closed, quit the program.
                mgr.exit();
                return ;
            },
        };
        let cmd = match self.controller.send(byte) {
            Some(c) => c,
            None => {
                return ;
            },
        };
        match cmd {
            ControllerMsg::Pause => mgr.pause(now),
            ControllerMsg::Play => mgr.resume(now),
            ControllerMsg::Toggle => mgr.toggle_paused(now),
            ControllerMsg::AdjustVolume(st) => {
                let v = self.volume as i64 + (st as i64) * (VOL_ADJUST_PERCENT as i64);
                self.volume = if v < 0 {
                    0
                } else if v > 100 {
                    100
                } else {
                    v as u32
                };
            },
            ControllerMsg::AdjustTempo(st) => {
                let t = self.tempo as i64 + st as i64;
                self.tempo = if t < TEMPO_MIN as i64 {
                    TEMPO_MIN
                } else if t > TEMPO_MAX as i64 {
                    TEMPO_MAX
                } else {
                    t as u32
                };
            },
            ControllerMsg::Sync => {
                self.tick_number = 0;
                mgr.set_tick(now, 0);
            },
            ControllerMsg::TapMode => {
                let tap = TapState::new(self.rhythm.clone(), self.volume, now);
                mgr.set_state(Mode::Tap(tap), now);
            },
            ControllerMsg::SetMode(first_digit) => {
                let set = SetState::new(self.rhythm.clone(), self.volume, first_digit);
                mgr.set_state(Mode::SetTempo(set), now);
            },
            ControllerMsg::Quit => mgr.exit(),
        }
    }
}

} // verus!
