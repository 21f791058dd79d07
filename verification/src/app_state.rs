//! The tick/timer scheduler: the state the main loop drives, the timer
//! protocol that decides when the active mode next wakes up, and the
//! pending mode transition.
//!
//! Time is carried as a number of nanoseconds on a monotonic clock; the
//! surrounding application reads the clock and hands the current instant
//! to every operation that needs one.

use vstd::prelude::*;

verus! {

/// Outputs from the keyboard thread.
#[derive(Clone, Copy, Debug, PartialEq, Eq, Structural)]
pub enum Keycode {
    /// Successfully received a key, here it is as a raw u8 byte.
    Key(u8),
    /// Failed to receive a key, probably because stdin closed.
    NoKey,
}

/// Time at which the active mode next requires a tick, in nanoseconds.
#[derive(Clone, Copy, Debug, PartialEq, Eq, Structural)]
pub enum TimerState {
    /// Never tick the mode: wait indefinitely for input.
    Unscheduled,
    /// Tick the mode at this instant, or earlier if input arrives first.
    Scheduled(u64),
    /// The timer is paused, with this much time left on it.
    Paused(u64),
}

/// The mode change a handler asks for.
pub enum StateTransition<S> {
    /// Keep the active mode.
    NoChange,
    /// Exit the program.
    Exit,
    /// Switch to this mode, destroying the old one.
    To(S),
}

/// What the scheduler should do while it waits for input.
#[derive(Clone, Copy, Debug, PartialEq, Eq, Structural)]
pub enum WaitDirective {
    /// No tick is scheduled: wait for input indefinitely.
    WaitForever,
    /// Wait for input at most this many nanoseconds, then tick.
    WaitFor(u64),
}

/// A mode of the application: the scheduler delivers timer ticks and
/// keypresses to exactly one mode at a time, and the mode answers by
/// operating on the scheduler state it is handed. Every handler keeps the
/// mode well-formed, and any replacement mode it schedules is well-formed
/// too, so the loop can go on driving whatever mode is active.
pub trait AppState: Sized {
    /// The mode's internal invariant.
    spec fn wf(self) -> bool;

    /// Runs one timer tick of the application, at instant `now`.
    fn tick(&mut self, mgr: &mut StateManager<Self>, now: u64)
        requires
            old(self).wf(),
        ensures
            final(self).wf(),
            old(mgr).pending() is NoChange ==> (final(mgr).pending()
                matches StateTransition::To(m) ==> m.wf()),
    ;

    /// Interprets a key-press, given the current instant in nanoseconds.
    fn keypress(&mut self, mgr: &mut StateManager<Self>, key: Keycode, now: u64)
        requires
            old(self).wf(),
        ensures
            final(self).wf(),
            old(mgr).pending() is NoChange ==> (final(mgr).pending()
                matches StateTransition::To(m) ==> m.wf()),
    ;
}

/// Pausing a timer at `now` converts its deadline into the time left until
/// it, never negative; a timer not scheduled is left alone.
pub open spec fn pause_spec(t: TimerState, now: u64) -> TimerState {
    match t {
        TimerState::Scheduled(d) => TimerState::Paused(
            if d >= now {
                (d - now) as u64
            } else {
                0
            },
        ),
        _ => t,
    }
}

/// Resuming a paused timer at `now` turns the time left into an absolute
/// deadline again (saturating at the largest representable instant); a
/// timer not paused is left alone.
pub open spec fn resume_spec(t: TimerState, now: u64) -> TimerState {
    match t {
        TimerState::Paused(rem) => TimerState::Scheduled(
            if now + rem > u64::MAX {
                u64::MAX
            } else {
                (now + rem) as u64
            },
        ),
        _ => t,
    }
}

/// Toggling pauses a scheduled timer and resumes a paused one.
pub open spec fn toggle_spec(t: TimerState, now: u64) -> TimerState {
    match t {
        TimerState::Scheduled(_) => pause_spec(t, now),
        TimerState::Paused(_) => resume_spec(t, now),
        TimerState::Unscheduled => t,
    }
}

/// Data structure for storing and updating the current application state.
pub struct StateManager<S> {
    // The state the program should transition to at the next loop.
    next_state: StateTransition<S>,
    // Time at which the state next requires an update.
    tick_time: TimerState,
}

impl<S> StateManager<S> {
    /// The timer the scheduler currently runs on.
    pub closed spec fn timer(self) -> TimerState {
        self.tick_time
    }

    /// The mode transition waiting to be applied at the next loop.
    pub closed spec fn pending(self) -> StateTransition<S> {
        self.next_state
    }

    /// The timer the scheduler currently runs on.
    pub fn get_timer(&self) -> (r: TimerState)
        ensures
            r == self.timer(),
    {
        self.tick_time
    }

    /// Creates a new StateManager, given the initial state. An immediate
    /// tick is scheduled so the new state can initialize.
    pub fn new(init_state: S, now: u64) -> (r: Self)
        ensures
            r.pending() == StateTransition::To(init_state),
            r.timer() == TimerState::Scheduled(now),
    {
        StateManager { next_state: StateTransition::To(init_state), tick_time: TimerState::Scheduled(now) }
    }

    /// Schedules the program to exit in the next state loop.
    pub fn exit(&mut self)
        ensures
            final(self).pending() is Exit,
            final(self).timer() == old(self).timer(),
    {
        self.next_state = StateTransition::Exit;
    }

    /// Sets the program state, scheduling an immediate tick so the new
    /// state can initialize its display on first entry.
    pub fn set_state(&mut self, new_state: S, now: u64)
        ensures
            final(self).pending() == StateTransition::To(new_state),
            final(self).timer() == TimerState::Scheduled(now),
    {
        self.next_state = StateTransition::To(new_state);
        self.tick_time = TimerState::Scheduled(now);
    }

    /// Hands the pending transition to the loop and forgets it.
    pub fn take_transition(&mut self) -> (r: StateTransition<S>)
        ensures
            r == old(self).pending(),
            final(self).pending() is NoChange,
            final(self).timer() == old(self).timer(),
    {
        let mut tr = StateTransition::NoChange;
        core::mem::swap(&mut tr, &mut self.next_state);
        tr
    }

    /// Schedules a tick for the current state in the given number of
    /// nanoseconds from `now`.
    pub fn set_tick(&mut self, now: u64, duration: u64)
        ensures
            final(self).timer() == TimerState::Scheduled(now.saturating_add(duration)),
            final(self).pending() == old(self).pending(),
    {
        self.tick_time = TimerState::Scheduled(now.saturating_add(duration));
    }

    /// Cancels a scheduled tick.
    pub fn unset_tick(&mut self)
        ensures
            final(self).timer() == TimerState::Unscheduled,
            final(self).pending() == old(self).pending(),
    {
        self.tick_time = TimerState::Unscheduled;
    }

    /// Pauses the tick timer, keeping the time that was left on it. A
    /// timer that is not running is left alone.
    pub fn pause(&mut self, now: u64)
        ensures
            final(self).timer() == pause_spec(old(self).timer(), now),
            final(self).pending() == old(self).pending(),
    {
        if let TimerState::Scheduled(time) = self.tick_time {
            let remaining = if time >= now {
                time - now
            } else {
                0
            };
            self.tick_time = TimerState::Paused(remaining);
        }
    }

    /// Resumes a paused tick timer, scheduling it for `now` plus the time
    /// that was left on it. A timer that is not paused is left alone.
    pub fn resume(&mut self, now: u64)
        ensures
            final(self).timer() == resume_spec(old(self).timer(), now),
            final(self).pending() == old(self).pending(),
    {
        if let TimerState::Paused(remaining) = self.tick_time {
            self.tick_time = TimerState::Scheduled(now.saturating_add(remaining));
        }
    }

    /// Toggles the tick timer between running and paused. A timer that is
    /// not running at all is left alone.
    pub fn toggle_paused(&mut self, now: u64)
        ensures
            final(self).timer() == toggle_spec(old(self).timer(), now),
            final(self).pending() == old(self).pending(),
    {
        if let TimerState::Paused(_) = self.tick_time {
            self.resume(now);
        } else if let TimerState::Scheduled(_) = self.tick_time {
            self.pause(now);
        }
    }

    /// How long the loop may wait for input before the next tick is due:
    /// forever where no tick is scheduled or the timer is paused, and at
    /// most the time to the deadline otherwise. A deadline already passed
    /// waits no time at all, so ticks never drift behind schedule.
    pub fn wait_directive(&self, now: u64) -> (r: WaitDirective)
        ensures
            r == match self.timer() {
                TimerState::Scheduled(d) => WaitDirective::WaitFor(
                    if d >= now {
                        (d - now) as u64
                    } else {
                        0
                    },
                ),
                _ => WaitDirective::WaitForever,
            },
    {
        match self.tick_time {
            TimerState::Scheduled(d) => WaitDirective::WaitFor(
                if d >= now {
                    d - now
                } else {
                    0
                },
            ),
            _ => WaitDirective::WaitForever,
        }
    }

    /// Forgets a deadline that has already passed, so a tick fires at
    /// most once per scheduling.
    pub fn clear_elapsed(&mut self, now: u64)
        ensures
            final(self).timer() == match old(self).timer() {
                TimerState::Scheduled(d) => if now >= d {
                    TimerState::Unscheduled
                } else {
                    TimerState::Scheduled(d)
                },
                t => t,
            },
            final(self).pending() == old(self).pending(),
    {
        if let TimerState::Scheduled(d) = self.tick_time {
            if now >= d {
                self.tick_time = TimerState::Unscheduled;
            }
        }
    }
}

/// Pausing and then resuming with no time elapsing in between restores
/// the original deadline exactly, as long as the deadline had not already
/// passed.
pub proof fn lemma_pause_resume_restores(t: TimerState, now: u64)
    requires
        t matches TimerState::Scheduled(d) && d >= now,
    ensures
        resume_spec(pause_spec(t, now), now) == t,
{
}

/// Toggling twice with no time elapsing in between returns the timer to
/// its original state: a running timer whose deadline has not passed
/// comes back running with the same deadline, and a paused timer whose
/// deadline fits on the clock comes back paused with the same time left.
pub proof fn lemma_toggle_twice_restores(t: TimerState, now: u64)
    requires
        t matches TimerState::Scheduled(d) ==> d >= now,
        t matches TimerState::Paused(rem) ==> now + rem <= u64::MAX,
        !(t is Unscheduled),
    ensures
        toggle_spec(toggle_spec(t, now), now) == t,
{
}

} // verus!
