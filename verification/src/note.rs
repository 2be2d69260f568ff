//! The completed-note record handed from the event tracker to the renderer.

use vstd::prelude::*;

verus! {

/// A note that has been closed by its second event: its pitch, the onset's
/// offset from process start, and how long it stayed open. All times are in
/// milliseconds. Immutable once created.
#[derive(Clone, Copy, Debug, PartialEq, Eq, Structural)]
pub struct NoteEvent {
    pub pitch: u8,
    pub onset_offset_ms: u64,
    pub duration_ms: u64,
}

/// Saturating subtraction: a non-monotonic clock degrades the affected time
/// value to zero rather than failing.
pub open spec fn sat_sub(a: u64, b: u64) -> u64 {
    if a >= b {
        (a - b) as u64
    } else {
        0
    }
}

/// The note emitted when a pitch opened at `onset` is closed at `close`,
/// relative to process start time `start` (all absolute milliseconds).
pub open spec fn note_of(pitch: u8, onset: u64, close: u64, start: u64) -> NoteEvent {
    NoteEvent {
        pitch: pitch,
        onset_offset_ms: sat_sub(onset, start),
        duration_ms: sat_sub(close, onset),
    }
}

/// Executable saturating subtraction, matching `sat_sub`.
pub fn saturating_sub_ms(a: u64, b: u64) -> (r: u64)
    ensures
        r == sat_sub(a, b),
{
    if a >= b {
        a - b
    } else {
        0
    }
}

} // verus!
