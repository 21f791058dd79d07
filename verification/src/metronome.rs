//! The per-tick pacing of a running metronome: how long one tick lasts at
//! a given tempo, and a pausable timer window for listening to control
//! messages between two ticks.

use crate::beat_spec::BeatSpec;
use vstd::prelude::*;

verus! {

/// Nanoseconds in one minute.
pub const NANOS_PER_MINUTE: u64 = 60_000_000_000;

/// Gets the time delay between two ticks of the given BeatSpec, in
/// nanoseconds: one beat lasts `60 / tempo` seconds and holds `beat_len`
/// ticks. The division truncates to whole nanoseconds.
pub fn get_delay(bs: &BeatSpec, tempo: u32) -> (r: u64)
    requires
        tempo >= 1,
        bs@.beat_len >= 1,
    ensures
        r as nat == (NANOS_PER_MINUTE as nat) / (tempo as nat * bs@.beat_len),
{
    let beat_len = bs.get_beat_len();
    proof {
        assert(tempo as int * beat_len as int >= 1 && tempo as int * beat_len as int <= u32::MAX
            as int * u32::MAX as int) by (nonlinear_arith)
            requires
                1 <= tempo as int <= u32::MAX as int,
                1 <= beat_len as int <= u32::MAX as int,
        ;
    }
    let ticks_per_minute = (tempo as u64) * (beat_len as u64);
    NANOS_PER_MINUTE / ticks_per_minute
}

/// The timing state of a listening window between ticks: it opens at
/// `start_time` and closes `duration` nanoseconds later, unless paused.
pub ghost struct RecvTimer {
    pub start_time: u64,
    pub duration: u64,
    pub paused: bool,
}

/// Pausing at `now` stores the time still left in the window. While
/// paused, the receiver listens forever rather than just until a timeout.
pub open spec fn pause_recv(v: RecvTimer, now: u64) -> RecvTimer {
    RecvTimer { duration: (v.duration - (now - v.start_time)) as u64, paused: true, ..v }
}

/// Resuming at `now` reopens the window from `now` on, with the stored
/// time left.
pub open spec fn resume_recv(v: RecvTimer, now: u64) -> RecvTimer {
    RecvTimer { start_time: now, paused: false, ..v }
}

/// Pausing and immediately resuming closes the window at the same instant
/// it would have closed before.
pub proof fn lemma_recv_pause_resume(v: RecvTimer, now: u64)
    requires
        v.start_time <= now,
        now - v.start_time <= v.duration,
    ensures
        ({
            let w = resume_recv(pause_recv(v, now), now);
            &&& w.start_time + w.duration == v.start_time + v.duration
            &&& !w.paused
        }),
{
}

/// What the window should do next at instant `now`.
#[derive(Clone, Copy, Debug, PartialEq, Eq, Structural)]
pub enum RecvWait {
    /// The window is paused: listen for messages forever.
    Forever,
    /// The window has closed: stop listening and play the next tick.
    Expired,
    /// Listen for at most this many nanoseconds.
    Timeout(u64),
}

/// A listening window over messages arriving between two ticks of the
/// metronome, which can be paused and resumed without losing its place.
pub struct TimedReceiver {
    // Start and duration of the time frame.
    start_time: u64,
    duration: u64,
    // Whether the timer is paused. While paused, the receiver listens
    // forever rather than just until its timeout; `duration` then holds
    // the remaining time, and resuming restarts the frame at the time of
    // resumption.
    paused: bool,
}

impl View for TimedReceiver {
    type V = RecvTimer;

    closed spec fn view(&self) -> RecvTimer {
        RecvTimer { start_time: self.start_time, duration: self.duration, paused: self.paused }
    }
}

impl TimedReceiver {
    /// Opens a listening window of `duration` nanoseconds starting at
    /// `now`.
    pub fn new(now: u64, duration: u64) -> (r: Self)
        ensures
            r@ == (RecvTimer { start_time: now, duration, paused: false }),
    {
        TimedReceiver { start_time: now, duration, paused: false }
    }

    /// Pauses the timer on the receiver. It will listen forever when next
    /// invoked unless the resume() method is issued.
    pub fn pause(&mut self, now: u64)
        requires
            old(self)@.start_time <= now,
            now - old(self)@.start_time <= old(self)@.duration,
        ensures
            final(self)@ == pause_recv(old(self)@, now),
    {
        self.paused = true;
        self.duration = self.duration - (now - self.start_time);
    }

    /// Resumes a paused receiver.
    pub fn resume(&mut self, now: u64)
        ensures
            final(self)@ == resume_recv(old(self)@, now),
    {
        self.paused = false;
        self.start_time = now;
    }

    /// Toggles a receiver between paused and resumed.
    pub fn toggle(&mut self, now: u64)
        requires
            !old(self)@.paused ==> old(self)@.start_time <= now && now - old(self)@.start_time
                <= old(self)@.duration,
        ensures
            final(self)@ == if old(self)@.paused {
                resume_recv(old(self)@, now)
            } else {
                pause_recv(old(self)@, now)
            },
    {
        if self.paused {
            self.resume(now);
        } else {
            self.pause(now);
        }
    }

    /// How to listen next: forever while paused, not at all once the
    /// window has closed, and otherwise for the time still left.
    pub fn next_wait(&self, now: u64) -> (r: RecvWait)
        requires
            !self@.paused ==> self@.start_time <= now,
        ensures
            r == if self@.paused {
                RecvWait::Forever
            } else if now - self@.start_time > self@.duration {
                RecvWait::Expired
            } else {
                RecvWait::Timeout((self@.duration - (now - self@.start_time)) as u64)
            },
    {
        if self.paused {
            return RecvWait::Forever;
        }
        let elapsed = now - self.start_time;
        if elapsed > self.duration {
            RecvWait::Expired
        } else {
            RecvWait::Timeout(self.duration - elapsed)
        }
    }
}

} // verus!
