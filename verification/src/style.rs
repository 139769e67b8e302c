//! Plain-value models of terminal colors, text styles, styled runs and
//! rectangles; the drawing layer converts them for the terminal backend.
use vstd::prelude::*;

verus! {

/// A terminal color: one of the sixteen named ANSI colors, a 24-bit color,
/// an indexed palette entry, or `Reset` ("keep the terminal's own").
#[derive(Clone, Copy, Debug, PartialEq, Eq, Structural)]
pub enum Color {
    Reset,
    Black,
    Red,
    Green,
    Yellow,
    Blue,
    Magenta,
    Cyan,
    Gray,
    DarkGray,
    LightRed,
    LightGreen,
    LightYellow,
    LightBlue,
    LightMagenta,
    LightCyan,
    White,
    Rgb(u8, u8, u8),
    Indexed(u8),
}

/// Foreground, background and the two text modifiers the panes use.
/// `None` leaves the color to whatever is underneath.
#[derive(Clone, Copy, Debug, PartialEq, Eq, Structural)]
pub struct Style {
    pub fg: Option<Color>,
    pub bg: Option<Color>,
    pub bold: bool,
    pub dim: bool,
}

pub open spec fn plain_style() -> Style {
    Style { fg: None, bg: None, bold: false, dim: false }
}

impl Style {
    /// No colors, no modifiers.
    pub fn plain() -> (s: Style)
        ensures
            s == plain_style(),
    {
        Style { fg: None, bg: None, bold: false, dim: false }
    }

    pub fn fg(self, c: Color) -> (s: Style)
        ensures
            s == (Style { fg: Some(c), ..self }),
    {
        Style { fg: Some(c), ..self }
    }

    pub fn bg(self, c: Color) -> (s: Style)
        ensures
            s == (Style { bg: Some(c), ..self }),
    {
        Style { bg: Some(c), ..self }
    }

    pub fn bold(self) -> (s: Style)
        ensures
            s == (Style { bold: true, ..self }),
    {
        Style { bold: true, ..self }
    }

    pub fn dim(self) -> (s: Style)
        ensures
            s == (Style { dim: true, ..self }),
    {
        Style { dim: true, ..self }
    }
}

/// A run of text drawn in one style.
#[derive(Clone, Debug)]
pub struct StyledText {
    pub content: String,
    pub style: Style,
}

impl View for StyledText {
    type V = (Seq<char>, Style);

    open spec fn view(&self) -> (Seq<char>, Style) {
        (self.content@, self.style)
    }
}

/// Text to draw in one style inside a rectangle.
#[derive(Clone, Debug)]
pub struct TextBlock {
    pub area: Rect,
    pub content: String,
    pub style: Style,
}

impl View for TextBlock {
    type V = (Rect, Seq<char>, Style);

    open spec fn view(&self) -> (Rect, Seq<char>, Style) {
        (self.area, self.content@, self.style)
    }
}

/// An axis-aligned cell rectangle.
#[derive(Clone, Copy, Debug, Default, PartialEq, Eq, Structural)]
pub struct Rect {
    pub x: u16,
    pub y: u16,
    pub width: u16,
    pub height: u16,
}

/// The rectangle at (`x`, `y`) with width and height clamped so that its
/// right and bottom edges stay within `u16`.
pub open spec fn spec_rect(x: u16, y: u16, width: u16, height: u16) -> Rect {
    Rect {
        x,
        y,
        width: if width > u16::MAX - x { (u16::MAX - x) as u16 } else { width },
        height: if height > u16::MAX - y { (u16::MAX - y) as u16 } else { height },
    }
}

impl Rect {
    /// A new rectangle, with width and height limited to keep both bounds
    /// within `u16` (as the terminal-UI crate's `Rect::new` does).
    pub fn new(x: u16, y: u16, width: u16, height: u16) -> (r: Rect)
        ensures
            r == spec_rect(x, y, width, height),
    {
        let max_width = u16::MAX - x;
        let max_height = u16::MAX - y;
        let width = if width > max_width { max_width } else { width };
        let height = if height > max_height { max_height } else { height };
        Rect { x, y, width, height }
    }
}

} // verus!
