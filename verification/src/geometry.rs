//! The pure mapping from a completed note to its piano-roll rectangle.
//!
//! Horizontal placement scales time; vertical placement stacks one fixed-
//! height row per pitch. The scale factor is a rational, kept as a
//! numerator/denominator pair of device units per millisecond, and applied
//! with round-to-nearest (half away from zero).

use vstd::prelude::*;

use crate::note::NoteEvent;

verus! {

/// One calibration set: the time scale as the rational
/// `scale_num / scale_den`, the vertical base and row height, and the lowest
/// pitch the plot area holds. Deployments differ only in these values, never
/// in the mapping itself.
pub struct GeometryConfig {
    pub scale_num: u64,
    pub scale_den: u64,
    pub row_base: u32,
    pub row_height: u32,
    pub pitch_min: u8,
}

impl GeometryConfig {
    /// A usable calibration has a well-defined scale.
    pub open spec fn wf(&self) -> bool {
        self.scale_den > 0
    }
}

/// An axis-aligned rectangle in device coordinate units, never mutated after
/// creation.
#[derive(Clone, Copy, Debug, PartialEq, Eq, Structural)]
pub struct Rect {
    pub x: u32,
    pub y: u32,
    pub width: u32,
    pub height: u32,
}

/// A time value scaled into device units: `t * scale_num / scale_den`,
/// rounded to the nearest unit (half rounds up).
pub open spec fn scaled(cfg: GeometryConfig, t: u64) -> int
    recommends
        cfg.wf(),
{
    (cfg.scale_num * t + cfg.scale_den / 2) / (cfg.scale_den as int)
}

/// The row's vertical position: one row of `row_height` units per pitch
/// above `pitch_min`, starting at `row_base`.
pub open spec fn row_y(cfg: GeometryConfig, pitch: u8) -> int
    recommends
        pitch >= cfg.pitch_min,
{
    cfg.row_base + cfg.row_height * (pitch - cfg.pitch_min)
}

/// Maps a completed note to its rectangle: x scales the onset's offset,
/// width scales the duration, y stacks rows by pitch, height is the row
/// height. Deterministic and free of side effects; the preconditions only
/// keep every coordinate inside the device's integer range.
pub fn map_note(cfg: &GeometryConfig, ev: &NoteEvent) -> (r: Rect)
    requires
        cfg.wf(),
        ev.pitch >= cfg.pitch_min,
        cfg.scale_num * ev.onset_offset_ms + cfg.scale_den / 2 <= u64::MAX,
        cfg.scale_num * ev.duration_ms + cfg.scale_den / 2 <= u64::MAX,
        scaled(*cfg, ev.onset_offset_ms) <= u32::MAX,
        scaled(*cfg, ev.duration_ms) <= u32::MAX,
        row_y(*cfg, ev.pitch) <= u32::MAX,
    ensures
        r.x == scaled(*cfg, ev.onset_offset_ms),
        r.width == scaled(*cfg, ev.duration_ms),
        r.y == row_y(*cfg, ev.pitch),
        r.height == cfg.row_height,
{
    let x_wide = (cfg.scale_num * ev.onset_offset_ms + cfg.scale_den / 2) / cfg.scale_den;
    let w_wide = (cfg.scale_num * ev.duration_ms + cfg.scale_den / 2) / cfg.scale_den;
    let rows = (ev.pitch - cfg.pitch_min) as u32;
    let y_wide = cfg.row_base as u64 + cfg.row_height as u64 * rows as u64;
    assert(y_wide == row_y(*cfg, ev.pitch));
    Rect {
        x: x_wide as u32,
        y: y_wide as u32,
        width: w_wide as u32,
        height: cfg.row_height,
    }
}

/// The horizontal mapping never runs backwards: under any usable
/// calibration, a later or longer time never scales to a smaller
/// coordinate, and no non-negative time scales below zero.
pub proof fn lemma_scaled_monotonic(cfg: GeometryConfig, t1: u64, t2: u64)
    requires
        cfg.wf(),
        t1 <= t2,
    ensures
        0 <= scaled(cfg, t1) <= scaled(cfg, t2),
{
    let half = cfg.scale_den / 2;
    assert(cfg.scale_num * t1 <= cfg.scale_num * t2) by (nonlinear_arith)
        requires
            t1 <= t2,
    ;
    vstd::arithmetic::div_mod::lemma_div_is_ordered(
        cfg.scale_num * t1 + half,
        cfg.scale_num * t2 + half,
        cfg.scale_den as int,
    );
    vstd::arithmetic::div_mod::lemma_div_pos_is_pos(
        cfg.scale_num * t1 + half,
        cfg.scale_den as int,
    );
    assert(cfg.scale_num * t1 >= 0) by (nonlinear_arith);
}

} // verus!
