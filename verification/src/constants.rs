//! Tunable constants of the metronome.

use vstd::prelude::*;

verus! {

/// Default tempo, in beats per minute.
pub const DEF_TEMPO: u32 = 120;

/// Default beats per measure.
pub const DEF_BEATS_PER_MEASURE: u32 = 4;

/// Default subdivisions per beat.
pub const DEF_SUBDIV_PER_BEAT: u32 = 1;

/// Default volume of beeps, in percent of full volume.
pub const DEF_VOLUME_PERCENT: u32 = 50;

/// Length of a beep, in milliseconds.
pub const BEAT_LEN: u64 = 150;

/// Volume change per press of the volume increase or decrease button, in
/// percent of full volume.
pub const VOL_ADJUST_PERCENT: u32 = 10;

/// Tempo change per press of the tempo increase or decrease button, in
/// beats per minute.
pub const TEMPO_ADJUST: u32 = 1;

/// Tempo minimum and maximum, in beats per minute.
pub const TEMPO_MIN: u32 = 10;

pub const TEMPO_MAX: u32 = 300;

/// Width of the measure progress indicator, in character cells; rhythms
/// are upsampled so their tick count divides it.
pub const MEAS_INDIC_WIDTH: u32 = 40;

} // verus!
