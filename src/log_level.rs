use vstd::prelude::*;

verus! {

/// One of the eight basic terminal colours.
#[derive(Clone, Copy, Debug, PartialEq, Eq, Structural)]
pub enum Color {
    Black,
    Red,
    Green,
    Yellow,
    Blue,
    Magenta,
    Cyan,
    White,
}

impl Color {
    /// The colour's number in the terminal's basic palette.
    pub open spec fn spec_code(self) -> u8 {
        match self {
            Color::Black => 0,
            Color::Red => 1,
            Color::Green => 2,
            Color::Yellow => 3,
            Color::Blue => 4,
            Color::Magenta => 5,
            Color::Cyan => 6,
            Color::White => 7,
        }
    }

    #[verifier::when_used_as_spec(spec_code)]
    pub fn code(self) -> (r: u8)
        ensures
            r == self.spec_code(),
            r < 8,
    {
        match self {
            Color::Black => 0,
            Color::Red => 1,
            Color::Green => 2,
            Color::Yellow => 3,
            Color::Blue => 4,
            Color::Magenta => 5,
            Color::Cyan => 6,
            Color::White => 7,
        }
    }
}

/// How a field is coloured: a foreground on a background.
#[derive(Clone, Copy, Debug, PartialEq, Eq, Structural)]
pub struct Style {
    pub fg: Color,
    pub bg: Color,
}

impl Style {
    pub fn new(fg: Color, bg: Color) -> (r: Style)
        ensures
            r.fg == fg,
            r.bg == bg,
    {
        Style { fg, bg }
    }
}

/// A named severity with the style its name is shown in.
#[derive(Debug)]
pub struct LogLevel {
    /// The name of the level
    pub name: String,
    /// Style to use when outputting the level
    pub style: Style,
    /// The level's rank once it is registered: lower is more severe
    pub position: Option<usize>,
}

impl LogLevel {
    pub fn new(name: String, style: Style) -> (r: LogLevel)
        ensures
            r.name == name,
            r.style == style,
            r.position is None,
    {
        LogLevel { name, style, position: None }
    }
}

impl Clone for LogLevel {
    fn clone(&self) -> (r: Self)
        ensures
            r == *self,
    {
        LogLevel { name: self.name.clone(), style: self.style, position: self.position }
    }
}

} // verus!
