//! Colors and text styles.

use vstd::prelude::*;

verus! {

/// A terminal color.
#[derive(Clone, Copy, Debug, PartialEq, Eq)]
pub enum Color {
    Black,
    Red,
    Green,
    Yellow,
    Blue,
    Magenta,
    Cyan,
    White,
    Grey,
    Rgb { r: u8, g: u8, b: u8 },
}

/// A foreground and a background color, each optional.
#[derive(Clone, Copy, Debug, PartialEq, Eq)]
pub struct Colors {
    pub foreground: Option<Color>,
    pub background: Option<Color>,
}

impl Colors {
    /// No color on either side.
    pub open spec fn unset() -> Colors {
        Colors { foreground: None, background: None }
    }

    /// These colors where they are set, `other`'s where they are not.
    pub open spec fn or(self, other: Colors) -> Colors {
        Colors {
            foreground: if self.foreground is Some {
                self.foreground
            } else {
                other.foreground
            },
            background: if self.background is Some {
                self.background
            } else {
                other.background
            },
        }
    }

    /// Fills the sides that are not set from `other`.
    pub fn merged(self, other: Colors) -> (out: Colors)
        ensures
            out == self.or(other),
    {
        let foreground = match self.foreground {
            Some(color) => Some(color),
            None => other.foreground,
        };
        let background = match self.background {
            Some(color) => Some(color),
            None => other.background,
        };
        Colors { foreground, background }
    }
}

impl Default for Colors {
    fn default() -> (colors: Self)
        ensures
            colors == Colors::unset(),
    {
        Colors { foreground: None, background: None }
    }
}

/// How a run of text is painted.
#[derive(Clone, Copy, Debug, PartialEq, Eq)]
pub struct TextStyle {
    pub bold: bool,
    pub italics: bool,
    pub code: bool,
    pub strikethrough: bool,
    pub colors: Colors,
}

impl TextStyle {
    /// The style that sets nothing.
    pub open spec fn plain() -> TextStyle {
        TextStyle {
            bold: false,
            italics: false,
            code: false,
            strikethrough: false,
            colors: Colors::unset(),
        }
    }

    /// This style with every flag and color of `other` added; colors already
    /// set are kept.
    pub open spec fn with(self, other: TextStyle) -> TextStyle {
        TextStyle {
            bold: self.bold || other.bold,
            italics: self.italics || other.italics,
            code: self.code || other.code,
            strikethrough: self.strikethrough || other.strikethrough,
            colors: self.colors.or(other.colors),
        }
    }

    /// The same style in bold.
    pub fn bold(self) -> (out: TextStyle)
        ensures
            out == (TextStyle { bold: true, ..self }),
    {
        TextStyle { bold: true, ..self }
    }

    /// The same style in italics.
    pub fn italics(self) -> (out: TextStyle)
        ensures
            out == (TextStyle { italics: true, ..self }),
    {
        TextStyle { italics: true, ..self }
    }

    /// The same style, marked as inline code.
    pub fn code(self) -> (out: TextStyle)
        ensures
            out == (TextStyle { code: true, ..self }),
    {
        TextStyle { code: true, ..self }
    }

    /// The same style, struck through.
    pub fn strikethrough(self) -> (out: TextStyle)
        ensures
            out == (TextStyle { strikethrough: true, ..self }),
    {
        TextStyle { strikethrough: true, ..self }
    }

    /// The same style with its colors replaced.
    pub fn colors(self, colors: Colors) -> (out: TextStyle)
        ensures
            out == (TextStyle { colors, ..self }),
    {
        TextStyle { colors, ..self }
    }

    /// Whether the text is inline code.
    pub fn is_code(&self) -> (code: bool)
        ensures
            code == self.code,
    {
        self.code
    }

    /// Adds the flags and colors of `other` to this style.
    pub fn merge(&mut self, other: &TextStyle)
        ensures
            *final(self) == old(self).with(*other),
    {
        self.bold = self.bold || other.bold;
        self.italics = self.italics || other.italics;
        self.code = self.code || other.code;
        self.strikethrough = self.strikethrough || other.strikethrough;
        self.colors = self.colors.merged(other.colors);
    }
}

impl Default for TextStyle {
    fn default() -> (style: Self)
        ensures
            style == TextStyle::plain(),
    {
        TextStyle {
            bold: false,
            italics: false,
            code: false,
            strikethrough: false,
            colors: Colors { foreground: None, background: None },
        }
    }
}

} // verus!
