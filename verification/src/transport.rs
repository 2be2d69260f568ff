//! The per-chunk flow-control handshake, as a state machine.
//!
//! Chunks are transmitted strictly sequentially, at most one in flight: write
//! the chunk's bytes, write the status-request probe, then read bytes one at
//! a time, discarding their content, until the carriage-return terminator is
//! observed; only then move to the next chunk. The machine decides; the
//! caller performs the link I/O it asks for and reports what happened.

use vstd::prelude::*;

use crate::chunker::CommandChunk;
use crate::chunker::chunk_bytes;
use crate::chunker::chunk_commands;
use crate::chunker::chunking;

verus! {

/// The byte that a ready device sends as the end of a response frame:
/// ASCII carriage return. Every byte before it is discardable.
pub const ACK_BYTE: u8 = 13;

/// The status-request control sequence written after each chunk. Its numeric
/// reply is ignored; only the terminating byte matters.
pub open spec fn probe_bytes() -> Seq<u8> {
    seq![79u8, 65u8, 59u8]
}

/// Builds the probe command, the ASCII text `OA;`.
pub fn probe_command() -> (r: Vec<u8>)
    ensures
        r@ == probe_bytes(),
{
    let mut r: Vec<u8> = Vec::new();
    r.push(79);
    r.push(65);
    r.push(59);
    proof {
        assert(r@ =~= probe_bytes());
    }
    r
}

/// Where the handshake for the current chunk stands.
#[derive(Clone, Copy, Debug, PartialEq, Eq, Structural)]
pub enum Phase {
    /// The current chunk's payload has not been written yet.
    SendChunk,
    /// The payload was written; the probe has not been written yet.
    SendProbe,
    /// The probe was written; reading bytes until the terminator arrives.
    AwaitAck,
    /// Every chunk has been acknowledged.
    Finished,
}

/// What the machine asks the link driver to do next.
#[derive(Debug)]
pub enum LinkCommand {
    /// Write these bytes to the link.
    Write(Vec<u8>),
    /// Read one byte from the link and report it back.
    ReadByte,
    /// Nothing is left to do.
    Done,
}

/// The transport state: the chunk payloads still to deliver, the index of
/// the chunk in flight, and the handshake phase.
pub struct Transport {
    pub payloads: Vec<Vec<u8>>,
    pub next: usize,
    pub phase: Phase,
}

impl Transport {
    /// The phase always agrees with the progress index: `Finished` exactly
    /// when every payload has been acknowledged.
    pub open spec fn wf(&self) -> bool {
        &&& self.next <= self.payloads@.len()
        &&& (self.phase is Finished <==> self.next == self.payloads@.len())
    }

    /// Starts a transmission of the given payloads, in order. An empty list
    /// has nothing to deliver and starts finished; otherwise the handshake
    /// begins by writing the first chunk.
    pub fn new(payloads: Vec<Vec<u8>>) -> (t: Transport)
        ensures
            t.wf(),
            t.payloads == payloads,
            t.next == 0,
            t.phase is Finished <==> payloads@.len() == 0,
            payloads@.len() > 0 ==> t.phase is SendChunk,
    {
        let phase = if payloads.len() == 0 {
            Phase::Finished
        } else {
            Phase::SendChunk
        };
        Transport { payloads, next: 0, phase }
    }

    /// What the driver must do next: write the chunk in flight, write the
    /// probe, read one byte, or stop.
    pub fn next_command(&self) -> (c: LinkCommand)
        requires
            self.wf(),
        ensures
            self.phase is SendChunk ==> (c matches LinkCommand::Write(b) && b.deep_view()
                == self.payloads.deep_view()[self.next as int]),
            self.phase is SendProbe ==> (c matches LinkCommand::Write(b) && b@ == probe_bytes()),
            self.phase is AwaitAck ==> c is ReadByte,
            self.phase is Finished ==> c is Done,
    {
        match self.phase {
            Phase::SendChunk => {
                let b = self.payloads[self.next].clone();
                assert(b.deep_view() =~= self.payloads.deep_view()[self.next as int]);
                LinkCommand::Write(b)
            },
            Phase::SendProbe => LinkCommand::Write(probe_command()),
            Phase::AwaitAck => LinkCommand::ReadByte,
            Phase::Finished => LinkCommand::Done,
        }
    }

    /// Records that the requested write completed: after the chunk comes the
    /// probe, and after the probe the wait for the acknowledgment.
    pub fn write_done(&mut self)
        requires
            old(self).wf(),
            old(self).phase is SendChunk || old(self).phase is SendProbe,
        ensures
            final(self).wf(),
            final(self).payloads == old(self).payloads,
            final(self).next == old(self).next,
            old(self).phase is SendChunk ==> final(self).phase is SendProbe,
            old(self).phase is SendProbe ==> final(self).phase is AwaitAck,
    {
        self.phase = match self.phase {
            Phase::SendChunk => Phase::SendProbe,
            _ => Phase::AwaitAck,
        };
    }

    /// Records one byte read from the link while awaiting acknowledgment.
    /// Anything but the terminator is discarded and the machine keeps
    /// waiting; the terminator releases the next chunk, or finishes when the
    /// chunk in flight was the last one.
    pub fn byte_received(&mut self, b: u8)
        requires
            old(self).wf(),
            old(self).phase is AwaitAck,
        ensures
            final(self).wf(),
            final(self).payloads == old(self).payloads,
            b != ACK_BYTE ==> final(self).next == old(self).next && final(self).phase
                is AwaitAck,
            b == ACK_BYTE ==> final(self).next == old(self).next + 1,
            b == ACK_BYTE && old(self).next + 1 < old(self).payloads@.len() ==> final(self).phase
                is SendChunk,
            b == ACK_BYTE && old(self).next + 1 == old(self).payloads@.len() ==> final(self).phase
                is Finished,
    {
        if b == ACK_BYTE {
            let n = self.payloads.len();
            assert(self.next < n);
            self.next = self.next + 1;
            self.phase = if self.next == n {
                Phase::Finished
            } else {
                Phase::SendChunk
            };
        }
    }

    /// Whether every chunk has been delivered and acknowledged.
    pub fn is_done(&self) -> (r: bool)
        ensures
            r == (self.phase is Finished),
    {
        match self.phase {
            Phase::Finished => true,
            _ => false,
        }
    }
}

/// The greedy rule always flushes the final partial chunk, so every command
/// list — even an empty one — packs into at least one chunk.
proof fn lemma_chunking_nonempty(cmds: Seq<Seq<u8>>, cap: nat, acc: Seq<Seq<u8>>)
    ensures
        crate::chunker::greedy_chunks(cmds, cap, acc).len() >= 1,
    decreases cmds.len(),
{
    if cmds.len() == 0 {
    } else if crate::chunker::total_len(acc) + cmds.first().len() < cap {
        lemma_chunking_nonempty(cmds.drop_first(), cap, acc.push(cmds.first()));
    } else {
        lemma_chunking_nonempty(cmds.drop_first(), cap, seq![cmds.first()]);
    }
}

/// Plans the transmission of one command list: packs the commands into
/// chunks by the greedy rule with capacity `cap`, flattens each chunk into
/// its wire payload, and starts the handshake machine over those payloads,
/// in chunk order. There is always at least the final flushed chunk, so the
/// machine always starts by writing the first chunk.
pub fn plan_transmission(cmds: &Vec<Vec<u8>>, cap: usize) -> (t: Transport)
    ensures
        t.wf(),
        t.next == 0,
        t.phase is SendChunk,
        t.payloads.deep_view().len() == chunking(cmds.deep_view(), cap as nat).len(),
        forall|i: int|
            0 <= i < t.payloads.deep_view().len() ==> t.payloads.deep_view()[i] == chunking(
                cmds.deep_view(),
                cap as nat,
            )[i].flatten(),
{
    proof {
        lemma_chunking_nonempty(cmds.deep_view(), cap as nat, Seq::empty());
    }
    let chunks: Vec<CommandChunk> = chunk_commands(cmds, cap);
    let ghost plan = chunking(cmds.deep_view(), cap as nat);
    let mut payloads: Vec<Vec<u8>> = Vec::new();
    let mut i: usize = 0;
    while i < chunks.len()
        invariant
            i <= chunks.len(),
            plan.len() == chunks.len(),
            forall|j: int| 0 <= j < chunks@.len() ==> #[trigger] chunks@[j]@ == plan[j],
            payloads.deep_view().len() == i,
            forall|j: int|
                0 <= j < i ==> #[trigger] payloads.deep_view()[j] == plan[j].flatten(),
        decreases chunks.len() - i,
    {
        let ghost p0 = payloads.deep_view();
        let bytes = chunk_bytes(&chunks[i]);
        payloads.push(bytes);
        proof {
            assert forall|j: int| 0 <= j < i + 1 implies #[trigger] payloads.deep_view()[j]
                == plan[j].flatten() by {
                if j < i {
                    assert(payloads.deep_view()[j] == p0[j]);
                }
            }
        }
        i = i + 1;
    }
    Transport::new(payloads)
}

} // verus!
