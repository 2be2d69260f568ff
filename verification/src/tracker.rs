//! The event-timing state machine.
//!
//! Each pitch is either idle or open. A pitch-carrying message toggles it: an
//! idle pitch records the current timestamp and opens; an open pitch closes,
//! emitting a completed note whose duration is the time it stayed open. The
//! toggle is driven purely by key presence — any message of exactly three
//! bytes participates, whatever its first byte says. A retriggered onset for
//! an already-open pitch, or an unrelated three-byte message sharing the same
//! second byte, is therefore read as the matching close; that matching rule
//! is deliberate and a known design risk, so it is spelled out here rather
//! than left implicit.
//!
//! Timestamps are plain milliseconds supplied by the caller, so a
//! non-monotonic clock cannot fail here: a backwards reading degrades the
//! affected value to zero (see `sat_sub`).

use vstd::prelude::*;

use crate::note::NoteEvent;
use crate::note::note_of;
use crate::note::saturating_sub_ms;

verus! {

/// How the pending-onset table changes on one message: a three-byte message
/// toggles the entry of the pitch in its second byte — an open entry closes,
/// an idle one records the onset time. Any other length changes nothing.
pub open spec fn step_pending(
    pending: Seq<Option<u64>>,
    data: Seq<u8>,
    now_ms: u64,
) -> Seq<Option<u64>> {
    if data.len() == 3 {
        if pending[data[1] as int] is Some {
            pending.update(data[1] as int, None)
        } else {
            pending.update(data[1] as int, Some(now_ms))
        }
    } else {
        pending
    }
}

/// What one message emits: closing an open pitch yields the completed note;
/// everything else yields nothing.
pub open spec fn step_output(
    pending: Seq<Option<u64>>,
    data: Seq<u8>,
    now_ms: u64,
    start_ms: u64,
) -> Option<NoteEvent> {
    if data.len() == 3 && pending[data[1] as int] is Some {
        Some(note_of(data[1], pending[data[1] as int]->Some_0, now_ms, start_ms))
    } else {
        None
    }
}

/// Tracks at most one pending onset per pitch. `pending[p]` holds the onset
/// timestamp of pitch `p` while that pitch is open; `start_ms` is the
/// process start time that onsets are reported relative to.
pub struct EventTracker {
    pub pending: Vec<Option<u64>>,
    pub start_ms: u64,
}

impl EventTracker {
    /// One table entry per possible second byte.
    pub open spec fn wf(&self) -> bool {
        self.pending@.len() == 256
    }

    /// A fresh tracker: every pitch idle, onsets reported relative to
    /// `start_ms`.
    pub fn new(start_ms: u64) -> (t: EventTracker)
        ensures
            t.wf(),
            t.start_ms == start_ms,
            forall|i: int| 0 <= i < 256 ==> t.pending@[i] is None,
    {
        let mut pending: Vec<Option<u64>> = Vec::new();
        let mut i: usize = 0;
        while i < 256
            invariant
                i <= 256,
                pending@.len() == i,
                forall|j: int| 0 <= j < i ==> pending@[j] is None,
            decreases 256 - i,
        {
            pending.push(None);
            i = i + 1;
        }
        EventTracker { pending, start_ms }
    }

    /// Feeds one incoming message, timestamped `now_ms`, through the toggle:
    /// the pending table steps by `step_pending` and the completed note, if
    /// this message closed one, is returned as `step_output` says.
    pub fn on_message(&mut self, data: &[u8], now_ms: u64) -> (emitted: Option<NoteEvent>)
        requires
            old(self).wf(),
        ensures
            final(self).wf(),
            final(self).start_ms == old(self).start_ms,
            final(self).pending@ == step_pending(old(self).pending@, data@, now_ms),
            emitted == step_output(old(self).pending@, data@, now_ms, old(self).start_ms),
    {
        if data.len() != 3 {
            return None;
        }
        let pitch = data[1];
        let idx = pitch as usize;
        match self.pending[idx] {
            Some(onset) => {
                self.pending.set(idx, None);
                let onset_offset_ms = saturating_sub_ms(onset, self.start_ms);
                let duration_ms = saturating_sub_ms(now_ms, onset);
                Some(NoteEvent { pitch, onset_offset_ms, duration_ms })
            },
            None => {
                self.pending.set(idx, Some(now_ms));
                None
            },
        }
    }
}

/// What a whole message sequence emits, message by message: the output of
/// each step, in arrival order, over the table as it evolves.
pub open spec fn run_outputs(
    pending: Seq<Option<u64>>,
    msgs: Seq<Seq<u8>>,
    times: Seq<u64>,
    start_ms: u64,
) -> Seq<Option<NoteEvent>>
    decreases msgs.len(),
{
    if msgs.len() == 0 {
        Seq::empty()
    } else {
        seq![step_output(pending, msgs.first(), times.first(), start_ms)] + run_outputs(
            step_pending(pending, msgs.first(), times.first()),
            msgs.drop_first(),
            times.drop_first(),
            start_ms,
        )
    }
}

/// The length of a run: one output per message.
pub proof fn lemma_run_length(
    pending: Seq<Option<u64>>,
    msgs: Seq<Seq<u8>>,
    times: Seq<u64>,
    start_ms: u64,
)
    ensures
        run_outputs(pending, msgs, times, start_ms).len() == msgs.len(),
    decreases msgs.len(),
{
    if msgs.len() > 0 {
        lemma_run_length(
            step_pending(pending, msgs.first(), times.first()),
            msgs.drop_first(),
            times.drop_first(),
            start_ms,
        );
    }
}

/// One position of a same-pitch run: starting from an idle pitch, the
/// message at an even position opens and emits nothing; the one at an odd
/// position closes, emitting the note of its pair's onset and close times.
proof fn lemma_toggle_at(
    pending: Seq<Option<u64>>,
    msgs: Seq<Seq<u8>>,
    times: Seq<u64>,
    start_ms: u64,
    p: u8,
    i: int,
)
    requires
        pending.len() == 256,
        pending[p as int] is None,
        msgs.len() == times.len(),
        forall|j: int| 0 <= j < msgs.len() ==> (#[trigger] msgs[j]).len() == 3 && msgs[j][1] == p,
        0 <= i < msgs.len(),
    ensures
        i % 2 == 0 ==> run_outputs(pending, msgs, times, start_ms)[i] is None,
        i % 2 == 1 ==> run_outputs(pending, msgs, times, start_ms)[i] == Some(
            note_of(p, times[i - 1], times[i], start_ms),
        ),
    decreases msgs.len(),
{
    let run = run_outputs(pending, msgs, times, start_ms);
    lemma_run_length(pending, msgs, times, start_ms);
    let pend1 = step_pending(pending, msgs.first(), times.first());
    let o0 = step_output(pending, msgs.first(), times.first(), start_ms);
    let msgs1 = msgs.drop_first();
    let times1 = times.drop_first();
    let run1 = run_outputs(pend1, msgs1, times1, start_ms);
    assert(run == seq![o0] + run1);
    assert(o0 is None);
    assert(pend1 == pending.update(p as int, Some(times.first())));
    if i == 0 {
        assert(run[0] == o0);
    } else {
        lemma_run_length(pend1, msgs1, times1, start_ms);
        assert(msgs1.first() == msgs[1]);
        let out1 = step_output(pend1, msgs1.first(), times1.first(), start_ms);
        let pend2 = step_pending(pend1, msgs1.first(), times1.first());
        let msgs2 = msgs1.drop_first();
        let times2 = times1.drop_first();
        let rec = run_outputs(pend2, msgs2, times2, start_ms);
        assert(run1 == seq![out1] + rec);
        assert(pend1[p as int] == Some(times.first()));
        assert(out1 == Some(note_of(p, times[0], times[1], start_ms)));
        if i == 1 {
            assert(run[1] == run1[0]);
        } else {
            assert(pend2 == pend1.update(p as int, None));
            assert(pend2[p as int] is None);
            assert forall|j: int| 0 <= j < msgs2.len() implies (#[trigger] msgs2[j]).len() == 3
                && msgs2[j][1] == p by {
                assert(msgs2[j] == msgs[j + 2]);
            }
            lemma_toggle_at(pend2, msgs2, times2, start_ms, p, i - 2);
            assert(run[i] == run1[i - 1]);
            assert(run1[i - 1] == rec[i - 2]);
            if i % 2 == 1 {
                assert(rec[i - 2] == Some(note_of(p, times2[i - 3], times2[i - 2], start_ms)));
                assert(times2[i - 3] == times[i - 1]);
                assert(times2[i - 2] == times[i]);
            }
        }
    }
}

/// The toggle alternates strictly. Starting from an idle pitch, a sequence
/// of three-byte messages all carrying that pitch opens on every
/// even-numbered arrival and closes on every odd-numbered one, emitting
/// exactly one note per adjacent (open, close) pair, in arrival order: the
/// note of pair `(2k, 2k+1)` appears at position `2k+1` and carries that
/// pair's onset and close times.
pub proof fn lemma_alternating_toggle(
    pending: Seq<Option<u64>>,
    msgs: Seq<Seq<u8>>,
    times: Seq<u64>,
    start_ms: u64,
    p: u8,
)
    requires
        pending.len() == 256,
        pending[p as int] is None,
        msgs.len() == times.len(),
        forall|i: int| 0 <= i < msgs.len() ==> (#[trigger] msgs[i]).len() == 3 && msgs[i][1] == p,
    ensures
        run_outputs(pending, msgs, times, start_ms).len() == msgs.len(),
        forall|i: int|
            0 <= i < msgs.len() && i % 2 == 0 ==> #[trigger] run_outputs(
                pending,
                msgs,
                times,
                start_ms,
            )[i] is None,
        forall|i: int|
            0 <= i < msgs.len() && i % 2 == 1 ==> #[trigger] run_outputs(
                pending,
                msgs,
                times,
                start_ms,
            )[i] == Some(note_of(p, times[i - 1], times[i], start_ms)),
{
    lemma_run_length(pending, msgs, times, start_ms);
    assert forall|i: int| 0 <= i < msgs.len() && i % 2 == 0 implies #[trigger] run_outputs(
        pending,
        msgs,
        times,
        start_ms,
    )[i] is None by {
        lemma_toggle_at(pending, msgs, times, start_ms, p, i);
    }
    assert forall|i: int| 0 <= i < msgs.len() && i % 2 == 1 implies #[trigger] run_outputs(
        pending,
        msgs,
        times,
        start_ms,
    )[i] == Some(note_of(p, times[i - 1], times[i], start_ms)) by {
        lemma_toggle_at(pending, msgs, times, start_ms, p, i);
    }
}

} // verus!
