//! The colors given to new labels, in turn.
use vstd::prelude::*;

verus! {

/// The color string of the `i`-th label color.
pub open spec fn label_palette(i: int) -> &'static str {
    if i == 0 {
        "rgb(228 26 28)"
    } else if i == 1 {
        "rgb(55 126 184)"
    } else if i == 2 {
        "rgb(77 175 74)"
    } else if i == 3 {
        "rgb(152 78 163)"
    } else if i == 4 {
        "rgb(255 127 0)"
    } else if i == 5 {
        "rgb(255 255 51)"
    } else if i == 6 {
        "rgb(166 86 40)"
    } else {
        "rgb(247 129 191)"
    }
}

/// Hands out the label colors in turn. The turn advances modulo 12, and only
/// the first 8 turns have a color.
#[derive(Debug, Default)]
pub struct LabelColorGenerator {
    idx: usize,
}

impl LabelColorGenerator {
    /// The current turn.
    pub closed spec fn turn(self) -> usize {
        self.idx
    }

    /// Starts at the first color.
    pub fn new() -> (r: Self)
        ensures
            r.turn() == 0,
    {
        LabelColorGenerator { idx: 0 }
    }

    /// Checks whether the current turn has a color.
    pub fn has_next(&self) -> (r: bool)
        ensures
            r == (self.turn() < 8),
    {
        self.idx < 8
    }

    /// Returns the color string of the current turn and advances the turn.
    pub fn next_css(&mut self) -> (r: &'static str)
        requires
            old(self).turn() < 8,
        ensures
            r == label_palette(old(self).turn() as int),
            final(self).turn() == (old(self).turn() + 1) % 12,
    {
        let css = match self.idx {
            0 => "rgb(228 26 28)",
            1 => "rgb(55 126 184)",
            2 => "rgb(77 175 74)",
            3 => "rgb(152 78 163)",
            4 => "rgb(255 127 0)",
            5 => "rgb(255 255 51)",
            6 => "rgb(166 86 40)",
            _ => "rgb(247 129 191)",
        };
        self.idx = (self.idx + 1) % 12;
        css
    }
}

} // verus!
