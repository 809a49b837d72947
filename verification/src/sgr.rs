//! Select Graphic Rendition: how a parameter list changes the pen.

use vstd::prelude::*;
use crate::color::{ansi_of_index, color_of_256, AnsiColor, Color};
use crate::state::{default_pen, Pen, Screen, TerminalState};

verus! {

/// What one position of a parameter list does: the pen after it and how many
/// parameters it took.
pub struct SgrStep {
    pub pen: Pen,
    pub used: int,
}

/// The colour that an extended colour selector at `i` (a 38 or a 48) names,
/// with the number of parameters it takes in all: `5;n` picks entry `n` of
/// the 256-colour table, `2;r;g;b` gives the channels. The selector and its
/// parameters are one unit: where the list ends before the colour is
/// complete, the selector names nothing and takes all that is left of the
/// list with it. A selector of another kind names nothing and takes only
/// itself.
pub open spec fn extended_color(params: Seq<u16>, i: int) -> (Option<Color>, int) {
    if i + 1 < params.len() && params[i + 1] == 5 {
        if i + 2 < params.len() {
            (Some(color_of_256(params[i + 2] as int % 256)), 3)
        } else {
            (None, params.len() - i)
        }
    } else if i + 1 < params.len() && params[i + 1] == 2 {
        if i + 4 < params.len() {
            (Some(Color::Rgb(params[i + 2], params[i + 3], params[i + 4])), 5)
        } else {
            (None, params.len() - i)
        }
    } else {
        (None, 1)
    }
}

/// The pen with another foreground colour.
pub open spec fn with_fg(pen: Pen, c: Color) -> Pen {
    Pen { fg: c, ..pen }
}

/// The pen with another background colour.
pub open spec fn with_bg(pen: Pen, c: Color) -> Pen {
    Pen { bg: c, ..pen }
}

/// What the parameter at position `i` does to the pen.
pub open spec fn sgr_step(pen: Pen, params: Seq<u16>, i: int) -> SgrStep {
    let p = params[i] as int;
    if p == 0 {
        SgrStep { pen: default_pen(), used: 1 }
    } else if p == 1 {
        SgrStep { pen: Pen { bold: true, ..pen }, used: 1 }
    } else if p == 2 {
        SgrStep { pen: Pen { dim: true, ..pen }, used: 1 }
    } else if p == 22 {
        SgrStep { pen: Pen { bold: false, dim: false, ..pen }, used: 1 }
    } else if p == 7 {
        SgrStep {
            pen: if pen.reversed {
                pen
            } else {
                Pen { fg: pen.bg, bg: pen.fg, reversed: true, ..pen }
            },
            used: 1,
        }
    } else if p == 27 {
        SgrStep {
            pen: if pen.reversed {
                Pen { fg: pen.bg, bg: pen.fg, reversed: false, ..pen }
            } else {
                pen
            },
            used: 1,
        }
    } else if 30 <= p <= 37 {
        SgrStep { pen: with_fg(pen, Color::Palette(ansi_of_index(p - 30))), used: 1 }
    } else if p == 38 {
        SgrStep {
            pen: match extended_color(params, i).0 {
                Some(c) => with_fg(pen, c),
                None => pen,
            },
            used: extended_color(params, i).1,
        }
    } else if p == 39 {
        SgrStep { pen: with_fg(pen, Color::Foreground), used: 1 }
    } else if 40 <= p <= 47 {
        SgrStep { pen: with_bg(pen, Color::Palette(ansi_of_index(p - 40))), used: 1 }
    } else if p == 48 {
        SgrStep {
            pen: match extended_color(params, i).0 {
                Some(c) => with_bg(pen, c),
                None => pen,
            },
            used: extended_color(params, i).1,
        }
    } else if p == 49 {
        SgrStep { pen: with_bg(pen, Color::Background), used: 1 }
    } else if 90 <= p <= 97 {
        SgrStep { pen: with_fg(pen, Color::Palette(ansi_of_index(p - 90 + 8))), used: 1 }
    } else if 100 <= p <= 107 {
        SgrStep { pen: with_bg(pen, Color::Palette(ansi_of_index(p - 100 + 8))), used: 1 }
    } else {
        SgrStep { pen, used: 1 }
    }
}

/// The pen after the parameters from position `i` on, read left to right.
pub open spec fn sgr_from(pen: Pen, params: Seq<u16>, i: int) -> Pen
    decreases params.len() - i,
{
    if 0 <= i < params.len() {
        sgr_from(sgr_step(pen, params, i).pen, params, i + sgr_step(pen, params, i).used)
    } else {
        pen
    }
}

impl Screen {
    /// The screen after the parameter list has been applied to its pen.
    pub open spec fn set_sgr(self, params: Seq<u16>) -> Screen {
        Screen { pen: sgr_from(self.pen, params, 0), ..self }
    }
}

/// Reverse video swaps the colours once: switching it on while it is on
/// changes nothing, and switching it off again brings the colours back.
pub proof fn lemma_reverse_swaps_once(pen: Pen)
    ensures
        sgr_from(sgr_from(pen, seq![7u16], 0), seq![7u16], 0) == sgr_from(pen, seq![7u16], 0),
        !pen.reversed ==> sgr_from(sgr_from(pen, seq![7u16], 0), seq![27u16], 0) == pen,
        sgr_from(pen, seq![7u16], 0).reversed,
{
    let on = seq![7u16];
    let off = seq![27u16];
    let once = sgr_step(pen, on, 0).pen;
    assert(sgr_from(pen, on, 0) == sgr_from(once, on, 1));
    assert(sgr_from(once, on, 1) == once);
    assert(sgr_from(once, on, 0) == sgr_from(sgr_step(once, on, 0).pen, on, 1));
    assert(sgr_from(once, off, 0) == sgr_from(sgr_step(once, off, 0).pen, off, 1));
}

/// A colour selector that the list cuts short leaves the pen as it is,
/// whatever stands behind the selector.
pub proof fn lemma_cut_short_color_changes_nothing(pen: Pen, params: Seq<u16>)
    requires
        params.len() >= 2,
        params[0] == 38 || params[0] == 48,
        (params[1] == 5 && params.len() < 3) || (params[1] == 2 && params.len() < 5),
    ensures
        sgr_from(pen, params, 0) == pen,
{
    let step = sgr_step(pen, params, 0);
    assert(step.pen == pen);
    assert(step.used == params.len());
    assert(sgr_from(pen, params, 0) == sgr_from(step.pen, params, step.used));
}

/// Reads an extended colour selector at `i`.
fn read_extended(params: &[u16], i: usize) -> (r: (Option<Color>, usize))
    requires
        i < params.len(),
    ensures
        r.0 == extended_color(params@, i as int).0,
        r.1 == extended_color(params@, i as int).1,
{
    let left = params.len() - i;
    if left > 1 && params[i + 1] == 5 {
        if left > 2 {
            let idx: u8 = (params[i + 2] % 256) as u8;
            (Some(AnsiColor::from_256(idx)), 3)
        } else {
            (None, left)
        }
    } else if left > 1 && params[i + 1] == 2 {
        if left > 4 {
            (Some(Color::Rgb(params[i + 2], params[i + 3], params[i + 4])), 5)
        } else {
            (None, left)
        }
    } else {
        (None, 1)
    }
}

/// Applies the parameter at position `i` to `pen` and says how many
/// parameters that took.
fn apply_one(pen: &mut Pen, params: &[u16], i: usize) -> (used: usize)
    requires
        i < params.len(),
    ensures
        *final(pen) == sgr_step(*old(pen), params@, i as int).pen,
        used == sgr_step(*old(pen), params@, i as int).used,
        1 <= used <= 5,
{
    let p = params[i];
    let mut used: usize = 1;
    if p == 0 {
        *pen = Pen {
            fg: Color::Foreground,
            bg: Color::Background,
            reversed: false,
            bold: false,
            dim: false,
        };
    } else if p == 1 {
        pen.bold = true;
    } else if p == 2 {
        pen.dim = true;
    } else if p == 22 {
        pen.bold = false;
        pen.dim = false;
    } else if p == 7 {
        if !pen.reversed {
            let fg = pen.fg;
            pen.fg = pen.bg;
            pen.bg = fg;
            pen.reversed = true;
        }
    } else if p == 27 {
        if pen.reversed {
            let fg = pen.fg;
            pen.fg = pen.bg;
            pen.bg = fg;
            pen.reversed = false;
        }
    } else if 30 <= p && p <= 37 {
        pen.fg = Color::Palette(AnsiColor::from_index((p - 30) as u8));
    } else if p == 38 {
        let (color, n) = read_extended(params, i);
        if let Some(c) = color {
            pen.fg = c;
        }
        used = n;
    } else if p == 39 {
        pen.fg = Color::Foreground;
    } else if 40 <= p && p <= 47 {
        pen.bg = Color::Palette(AnsiColor::from_index((p - 40) as u8));
    } else if p == 48 {
        let (color, n) = read_extended(params, i);
        if let Some(c) = color {
            pen.bg = c;
        }
        used = n;
    } else if p == 49 {
        pen.bg = Color::Background;
    } else if 90 <= p && p <= 97 {
        pen.fg = Color::Palette(AnsiColor::from_index((p - 90 + 8) as u8));
    } else if 100 <= p && p <= 107 {
        pen.bg = Color::Palette(AnsiColor::from_index((p - 100 + 8) as u8));
    }
    used
}

impl TerminalState {
    /// Applies a parameter list of Select Graphic Rendition to the pen, left
    /// to right. `0` resets the pen; `38` and `48` take the parameters of
    /// their colour with them. A colour that the list cuts short changes
    /// nothing, and what is there of it is not read as codes of its own.
    pub fn set_sgr(&mut self, params: &[u16])
        requires
            old(self).wf(),
        ensures
            final(self)@ == old(self)@.set_sgr(params@),
            final(self).wf(),
    {
        let mut pen = self.pen;
        let mut i: usize = 0;
        while i < params.len()
            invariant
                sgr_from(pen, params@, i as int) == sgr_from(old(self).pen, params@, 0),
            decreases params.len() - i,
        {
            let used = apply_one(&mut pen, params, i);
            i = if used <= params.len() - i {
                i + used
            } else {
                params.len()
            };
        }
        self.pen = pen;
    }
}

} // verus!
