use vstd::prelude::*;

verus! {

/// Number of colours in each palette of process colours.
pub const PALETTE_LEN: usize = 20;

/// The colour that a line is written in.
#[derive(Clone, Copy, Debug, PartialEq, Eq, Structural)]
pub enum LogColor {
    /// The `n`-th colour of the palette for standard output.
    Palette(usize),
    /// The `n`-th colour of the palette for standard error.
    ErrPalette(usize),
    /// The accent of the tool's own messages.
    Accent,
    /// No styling.
    Plain,
}

/// What the terminal supports.
#[derive(Clone, Copy, Debug, PartialEq, Eq, Structural)]
pub struct Formatter {
    pub supports_truecolor: bool,
    pub supports_ansi_color: bool,
}

impl Formatter {
    pub fn new(supports_truecolor: bool, supports_ansi_color: bool) -> (r: Formatter)
        ensures
            r.supports_truecolor == supports_truecolor,
            r.supports_ansi_color == supports_ansi_color,
    {
        Formatter { supports_truecolor, supports_ansi_color }
    }

    /// The colour of the output of the `idx`-th job: one palette per stream,
    /// cycling; plain without true colour.
    pub fn log_color_proc(&self, idx: usize, err: bool) -> (r: LogColor)
        ensures
            !self.supports_truecolor ==> r == LogColor::Plain,
            self.supports_truecolor && err ==> r == LogColor::ErrPalette(idx % PALETTE_LEN),
            self.supports_truecolor && !err ==> r == LogColor::Palette(idx % PALETTE_LEN),
    {
        if self.supports_truecolor {
            if err {
                LogColor::ErrPalette(idx % PALETTE_LEN)
            } else {
                LogColor::Palette(idx % PALETTE_LEN)
            }
        } else {
            LogColor::Plain
        }
    }

    /// The colour of the tool's own messages.
    pub fn log_color_app(&self) -> (r: LogColor)
        ensures
            r == (if self.supports_ansi_color {
                LogColor::Accent
            } else {
                LogColor::Plain
            }),
    {
        if self.supports_ansi_color {
            LogColor::Accent
        } else {
            LogColor::Plain
        }
    }
}

} // verus!
