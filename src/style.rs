use vstd::prelude::*;

verus! {

/// The colours a cell can carry: the eight basic terminal colours and the
/// bright variants selected by SGR 90-97.
#[derive(Clone, Copy, Debug, PartialEq, Eq, Structural)]
pub enum Color {
    Black,
    Red,
    Green,
    Yellow,
    Blue,
    Magenta,
    Cyan,
    White,
    DarkGray,
    LightRed,
    LightGreen,
    LightYellow,
    LightBlue,
    LightMagenta,
    LightCyan,
}

/// Rendition attributes of a cell. `None` colours mean the terminal default.
#[derive(Clone, Copy, Debug, PartialEq, Eq, Structural)]
pub struct Style {
    pub fg: Option<Color>,
    pub bg: Option<Color>,
    pub bold: bool,
    pub underline: bool,
}

/// One grid position: a code point and the style it was printed with.
#[derive(Clone, Copy, Debug, PartialEq, Eq, Structural)]
pub struct Cell {
    pub ch: char,
    pub style: Style,
}

/// The style with no attributes: default colours, not bold, not underlined.
pub open spec fn plain_style() -> Style {
    Style { fg: None, bg: None, bold: false, underline: false }
}

/// A cleared cell: a space in the plain style.
pub open spec fn blank_cell() -> Cell {
    Cell { ch: ' ', style: plain_style() }
}

impl Style {
    pub fn plain() -> (r: Style)
        ensures
            r == plain_style(),
    {
        Style { fg: None, bg: None, bold: false, underline: false }
    }
}

impl Cell {
    pub fn blank() -> (r: Cell)
        ensures
            r == blank_cell(),
    {
        Cell { ch: ' ', style: Style::plain() }
    }
}

} // verus!
