//! A piano-roll renderer for a pen plotter: musical onset/offset events are
//! paired into timed notes, mapped to rectangles, compiled into plotter
//! commands, and streamed over a small-buffer serial link in bounded chunks
//! with a per-chunk acknowledgment handshake.

use vstd::prelude::*;

pub mod chunker;
pub mod compiler;
pub mod geometry;
pub mod note;
pub mod queue;
pub mod tracker;
pub mod transport;

pub use chunker::CommandChunk;
pub use chunker::chunk_bytes;
pub use chunker::chunk_commands;
pub use compiler::compile_rect;
pub use compiler::init_command;
pub use compiler::pa_move;
pub use compiler::pen_down;
pub use compiler::pen_select;
pub use compiler::pen_up;
pub use geometry::GeometryConfig;
pub use geometry::Rect;
pub use geometry::map_note;
pub use note::NoteEvent;
pub use queue::DispatchQueue;
pub use tracker::EventTracker;
pub use transport::LinkCommand;
pub use transport::Phase;
pub use transport::Transport;
pub use transport::plan_transmission;
pub use transport::probe_command;
pub use transport::ACK_BYTE;

verus! {

} // verus!
