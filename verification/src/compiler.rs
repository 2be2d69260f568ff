//! The command compiler: one rectangle becomes a fixed, ordered sequence of
//! plotter-language commands that traces its outline as a closed
//! quadrilateral.
//!
//! The device language is ASCII text, each command terminated by `;`:
//! `SP1;` selects pen 1, `PA<x>,<y>;` moves to an absolute position (the pen
//! state decides whether the move draws), `PD;` puts the pen down and `PU;`
//! lifts it, and `IN;` resets the device. Coordinates are printed in
//! decimal with no leading zeros.

use vstd::prelude::*;

use crate::geometry::Rect;

verus! {

/// The decimal digits of `n`, most significant first, as ASCII bytes.
pub open spec fn spec_digits(n: nat) -> Seq<u8>
    decreases n,
{
    if n < 10 {
        seq![(48 + n) as u8]
    } else {
        spec_digits(n / 10).push((48 + n % 10) as u8)
    }
}

/// Appends the decimal rendering of `n` to `out`.
fn push_decimal(n: u64, out: &mut Vec<u8>)
    ensures
        final(out)@ == old(out)@ + spec_digits(n as nat),
    decreases n,
{
    if n < 10 {
        out.push(48 + (n as u8));
        assert(out@ =~= old(out)@ + spec_digits(n as nat));
    } else {
        push_decimal(n / 10, out);
        out.push(48 + ((n % 10) as u8));
        assert(out@ =~= old(out)@ + spec_digits(n as nat));
    }
}

/// `PA<x>,<y>;` — move to the absolute position (x, y).
pub open spec fn pa_command(x: int, y: int) -> Seq<u8>
    recommends
        0 <= x,
        0 <= y,
{
    seq![80u8, 65u8] + spec_digits(x as nat) + seq![44u8] + spec_digits(y as nat) + seq![59u8]
}

/// `SP1;` — select pen 1, the fixed drawing pen.
pub open spec fn pen_select_command() -> Seq<u8> {
    seq![83u8, 80u8, 49u8, 59u8]
}

/// `PD;` — pen down, begin drawing.
pub open spec fn pen_down_command() -> Seq<u8> {
    seq![80u8, 68u8, 59u8]
}

/// `PU;` — pen up, stop drawing.
pub open spec fn pen_up_command() -> Seq<u8> {
    seq![80u8, 85u8, 59u8]
}

/// `IN;` — initialize/reset the device, written once at startup.
pub open spec fn init_bytes() -> Seq<u8> {
    seq![73u8, 78u8, 59u8]
}

/// Builds the `PA<x>,<y>;` command.
pub fn pa_move(x: u32, y: u32) -> (cmd: Vec<u8>)
    ensures
        cmd@ == pa_command(x as int, y as int),
{
    let mut cmd: Vec<u8> = Vec::new();
    cmd.push(80);
    cmd.push(65);
    push_decimal(x as u64, &mut cmd);
    cmd.push(44);
    push_decimal(y as u64, &mut cmd);
    cmd.push(59);
    proof {
        assert(cmd@ =~= pa_command(x as int, y as int));
    }
    cmd
}

/// Builds the `SP1;` command.
pub fn pen_select() -> (cmd: Vec<u8>)
    ensures
        cmd@ == pen_select_command(),
{
    let mut cmd: Vec<u8> = Vec::new();
    cmd.push(83);
    cmd.push(80);
    cmd.push(49);
    cmd.push(59);
    proof {
        assert(cmd@ =~= pen_select_command());
    }
    cmd
}

/// Builds the `PD;` command.
pub fn pen_down() -> (cmd: Vec<u8>)
    ensures
        cmd@ == pen_down_command(),
{
    let mut cmd: Vec<u8> = Vec::new();
    cmd.push(80);
    cmd.push(68);
    cmd.push(59);
    proof {
        assert(cmd@ =~= pen_down_command());
    }
    cmd
}

/// Builds the `PU;` command.
pub fn pen_up() -> (cmd: Vec<u8>)
    ensures
        cmd@ == pen_up_command(),
{
    let mut cmd: Vec<u8> = Vec::new();
    cmd.push(80);
    cmd.push(85);
    cmd.push(59);
    proof {
        assert(cmd@ =~= pen_up_command());
    }
    cmd
}

/// Builds the `IN;` command.
pub fn init_command() -> (cmd: Vec<u8>)
    ensures
        cmd@ == init_bytes(),
{
    let mut cmd: Vec<u8> = Vec::new();
    cmd.push(73);
    cmd.push(78);
    cmd.push(59);
    proof {
        assert(cmd@ =~= init_bytes());
    }
    cmd
}

/// The fixed command sequence for one rectangle: select the pen, move to the
/// top-left corner with the pen up, pen down, then trace right, down, left
/// and back up to the top-left corner, and lift the pen. No other drawing
/// primitive is ever emitted.
pub open spec fn rect_commands(r: Rect) -> Seq<Seq<u8>> {
    seq![
        pen_select_command(),
        pa_command(r.x as int, r.y as int),
        pen_down_command(),
        pa_command(r.x + r.width, r.y as int),
        pa_command(r.x + r.width, r.y + r.height),
        pa_command(r.x as int, r.y + r.height),
        pa_command(r.x as int, r.y as int),
        pen_up_command(),
    ]
}

/// Compiles a rectangle into its command sequence, exactly `rect_commands`.
/// The preconditions keep the far corner inside the coordinate range.
pub fn compile_rect(r: &Rect) -> (cmds: Vec<Vec<u8>>)
    requires
        r.x + r.width <= u32::MAX,
        r.y + r.height <= u32::MAX,
    ensures
        cmds.deep_view() == rect_commands(*r),
{
    let right = r.x + r.width;
    let bottom = r.y + r.height;
    let mut cmds: Vec<Vec<u8>> = Vec::new();
    cmds.push(pen_select());
    cmds.push(pa_move(r.x, r.y));
    cmds.push(pen_down());
    cmds.push(pa_move(right, r.y));
    cmds.push(pa_move(right, bottom));
    cmds.push(pa_move(r.x, bottom));
    cmds.push(pa_move(r.x, r.y));
    cmds.push(pen_up());
    proof {
        assert(cmds.deep_view() =~~= rect_commands(*r));
    }
    cmds
}

} // verus!
