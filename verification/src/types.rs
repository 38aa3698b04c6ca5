//! Glyphs and colours of a series.

use vstd::prelude::*;
use vstd::std_specs::convert::FromSpecImpl;

verus! {

/// The character that marks the points of a series.
#[derive(Copy, Clone, Debug, PartialEq, Eq, Structural)]
pub enum Character {
    /// Circle with a cross, U+00A4.
    CrossCircle,
    /// Registered sign, U+00AE.
    Copyright,
    /// The same sign as `Copyright`.
    Registered,
    /// Multiplication sign, U+00D7.
    Times,
    /// Cyrillic letter zhe, U+0436.
    CyrillicZhe,
    /// Cyrillic millions sign, U+0489.
    CyrillicMillions,
    /// Cyrillic hundred thousands sign, U+0488.
    CyrillicHundredThousands,
    /// Bullet, U+2022.
    Bullet,
    /// Ring operator, U+2218.
    EmptyBullet,
    /// Triangular bullet, U+2023.
    SmallTriangle,
    /// Reference mark, U+203B.
    CrossPoint,
    /// Asterisk operator, U+2217.
    Asterisk,
    /// Flower punctuation mark, U+2055.  The default.
    Star,
    /// Any other character.
    Custom(char),
}

impl Character {
    /// The character that a variant stands for.
    pub open spec fn glyph(self) -> char {
        match self {
            Character::CrossCircle => '\u{00A4}',
            Character::Copyright | Character::Registered => '\u{00AE}',
            Character::Times => '\u{00D7}',
            Character::CyrillicZhe => '\u{0436}',
            Character::CyrillicMillions => '\u{0489}',
            Character::CyrillicHundredThousands => '\u{0488}',
            Character::Bullet => '\u{2022}',
            Character::EmptyBullet => '\u{2218}',
            Character::SmallTriangle => '\u{2023}',
            Character::CrossPoint => '\u{203B}',
            Character::Asterisk => '\u{2217}',
            Character::Star => '\u{2055}',
            Character::Custom(c) => c,
        }
    }

    /// Turns the variant into its `char`; a `Custom` gives the character it wraps.
    pub fn as_char(&self) -> (c: char)
        ensures
            c == self.glyph(),
    {
        match self {
            Character::CrossCircle => '\u{00A4}',
            Character::Copyright | Character::Registered => '\u{00AE}',
            Character::Times => '\u{00D7}',
            Character::CyrillicZhe => '\u{0436}',
            Character::CyrillicMillions => '\u{0489}',
            Character::CyrillicHundredThousands => '\u{0488}',
            Character::Bullet => '\u{2022}',
            Character::EmptyBullet => '\u{2218}',
            Character::SmallTriangle => '\u{2023}',
            Character::CrossPoint => '\u{203B}',
            Character::Asterisk => '\u{2217}',
            Character::Star => '\u{2055}',
            Character::Custom(c) => *c,
        }
    }
}

impl Default for Character {
    fn default() -> (c: Character)
        ensures
            c == Character::Star,
    {
        Character::Star
    }
}

impl From<char> for Character {
    /// Wraps the character in `Custom`.
    fn from(c: char) -> (r: Character) {
        Character::Custom(c)
    }
}

impl FromSpecImpl<char> for Character {
    open spec fn obeys_from_spec() -> bool {
        true
    }

    open spec fn from_spec(c: char) -> Character {
        Character::Custom(c)
    }
}

impl From<Character> for char {
    /// The character that the variant stands for.
    fn from(val: Character) -> (r: char) {
        val.as_char()
    }
}

impl FromSpecImpl<Character> for char {
    open spec fn obeys_from_spec() -> bool {
        true
    }

    open spec fn from_spec(val: Character) -> char {
        val.glyph()
    }
}

/// A terminal colour: the sixteen named colours, the terminal's own default, a 24-bit colour
/// and an entry of the 256-colour table.
#[derive(Copy, Clone, Debug, PartialEq, Eq, Structural)]
pub enum Color {
    Reset,
    Black,
    DarkGrey,
    Red,
    DarkRed,
    Green,
    DarkGreen,
    Yellow,
    DarkYellow,
    Blue,
    DarkBlue,
    Magenta,
    DarkMagenta,
    Cyan,
    DarkCyan,
    White,
    Grey,
    Rgb { r: u8, g: u8, b: u8 },
    AnsiValue(u8),
}

/// The colour of a series.  Its default is blue.
#[derive(Copy, Clone, Debug, PartialEq, Eq, Structural)]
pub struct ColorWrapper(pub Color);

impl Default for ColorWrapper {
    fn default() -> (c: ColorWrapper)
        ensures
            c == ColorWrapper(Color::Blue),
    {
        ColorWrapper(Color::Blue)
    }
}

impl From<Color> for ColorWrapper {
    fn from(c: Color) -> (r: ColorWrapper) {
        ColorWrapper(c)
    }
}

impl FromSpecImpl<Color> for ColorWrapper {
    open spec fn obeys_from_spec() -> bool {
        true
    }

    open spec fn from_spec(c: Color) -> ColorWrapper {
        ColorWrapper(c)
    }
}

impl From<ColorWrapper> for Color {
    fn from(val: ColorWrapper) -> (r: Color) {
        val.0
    }
}

impl FromSpecImpl<ColorWrapper> for Color {
    open spec fn obeys_from_spec() -> bool {
        true
    }

    open spec fn from_spec(val: ColorWrapper) -> Color {
        val.0
    }
}

/// Whole factors by which sampling stretches the steps and the values.  Both are one where
/// nothing is said.
#[derive(Copy, Clone, Debug, PartialEq, Eq, Structural)]
pub struct Scales {
    /// The factor of the steps.
    pub x: u32,
    /// The factor of the values.
    pub y: i64,
}

impl Scales {
    /// The scale that changes nothing.
    pub open spec fn unit() -> Scales {
        Scales { x: 1, y: 1 }
    }

    /// The scale of two factors that may be missing; a missing one is one.
    pub open spec fn of(x: Option<u32>, y: Option<i64>) -> Scales {
        Scales {
            x: match x {
                Some(v) => v,
                None => 1,
            },
            y: match y {
                Some(v) => v,
                None => 1,
            },
        }
    }
}

impl Default for Scales {
    fn default() -> (s: Scales)
        ensures
            s == Scales::unit(),
    {
        Scales { x: 1, y: 1 }
    }
}

impl From<(u32, i64)> for Scales {
    fn from(pair: (u32, i64)) -> (r: Scales) {
        Scales { x: pair.0, y: pair.1 }
    }
}

impl FromSpecImpl<(u32, i64)> for Scales {
    open spec fn obeys_from_spec() -> bool {
        true
    }

    open spec fn from_spec(pair: (u32, i64)) -> Scales {
        Scales { x: pair.0, y: pair.1 }
    }
}

impl From<(Option<u32>, Option<i64>)> for Scales {
    fn from(pair: (Option<u32>, Option<i64>)) -> (r: Scales) {
        Scales {
            x: match pair.0 {
                Some(v) => v,
                None => 1,
            },
            y: match pair.1 {
                Some(v) => v,
                None => 1,
            },
        }
    }
}

impl FromSpecImpl<(Option<u32>, Option<i64>)> for Scales {
    open spec fn obeys_from_spec() -> bool {
        true
    }

    open spec fn from_spec(pair: (Option<u32>, Option<i64>)) -> Scales {
        Scales::of(pair.0, pair.1)
    }
}

} // verus!
