//! Colors of log lines, which stand for their severity.
use super::text::same_text;
use std::str::FromStr;
use vstd::prelude::*;

verus! {

/// The color that a log line is printed in; `Reset` ends the coloring.
#[derive(Clone, Copy, Debug, PartialEq, Eq, Structural)]
pub enum Color {
    Red,
    Green,
    Blue,
    Reset,
}

/// A string is none of the escape sequences that [`Color::make`] gives.
#[derive(Clone, Copy, Debug, PartialEq, Eq, Structural)]
pub struct ParseColorError {}

impl Color {
    /// The ANSI escape sequence that switches a terminal to this color.
    pub open spec fn code(self) -> Seq<char> {
        match self {
            Color::Red => "\x1b[31m"@,
            Color::Green => "\x1b[32m"@,
            Color::Blue => "\x1b[34m"@,
            Color::Reset => "\x1b[0m"@,
        }
    }

    /// The name of the severity that this color stands for. `Reset` stands
    /// for none.
    pub open spec fn severity(self) -> Seq<char>
        recommends
            !(self is Reset),
    {
        match self {
            Color::Red => "ERROR"@,
            Color::Green => "LOG"@,
            Color::Blue => "WARNING"@,
            Color::Reset => Seq::empty(),
        }
    }

    /// The ANSI escape sequence that switches a terminal to this color.
    pub fn make(&self) -> (escape: &'static str)
        ensures
            escape@ == self.code(),
    {
        match self {
            Color::Red => "\x1b[31m",
            Color::Green => "\x1b[32m",
            Color::Blue => "\x1b[34m",
            Color::Reset => "\x1b[0m",
        }
    }

    /// The name of the severity that this color stands for. `Reset` stands
    /// for none and is not to be asked.
    pub fn to_log_severity(&self) -> (name: &'static str)
        requires
            !(self is Reset),
        ensures
            name@ == self.severity(),
    {
        match self {
            Color::Red => "ERROR",
            Color::Green => "LOG",
            Color::Blue => "WARNING",
            Color::Reset => "",
        }
    }

    /// The color whose escape sequence `s` is: the inverse of
    /// [`Color::make`]. Any other string is an error.
    pub fn parse(s: &str) -> (result: Result<Color, ParseColorError>)
        ensures
            result is Ok <==> exists|color: Color| s@ == #[trigger] color.code(),
            result matches Ok(color) ==> s@ == color.code(),
    {
        if same_text(s, "\x1b[31m") {
            assert(s@ == Color::Red.code());
            Ok(Color::Red)
        } else if same_text(s, "\x1b[32m") {
            assert(s@ == Color::Green.code());
            Ok(Color::Green)
        } else if same_text(s, "\x1b[34m") {
            assert(s@ == Color::Blue.code());
            Ok(Color::Blue)
        } else if same_text(s, "\x1b[0m") {
            assert(s@ == Color::Reset.code());
            Ok(Color::Reset)
        } else {
            assert forall|color: Color| s@ != #[trigger] color.code() by {
                match color {
                    Color::Red => {},
                    Color::Green => {},
                    Color::Blue => {},
                    Color::Reset => {},
                }
            }
            Err(ParseColorError {  })
        }
    }
}

impl FromStr for Color {
    type Err = ParseColorError;

    /// The color whose escape sequence `s` is, as [`Color::parse`] gives
    /// it; any other string is an error.
    fn from_str(s: &str) -> (result: Result<Self, Self::Err>)
        ensures
            result is Ok <==> exists|color: Color| s@ == #[trigger] color.code(),
            result matches Ok(color) ==> s@ == color.code(),
    {
        Color::parse(s)
    }
}

/// No two colors share an escape sequence, so parsing the escape sequence
/// of a color gives that color and no other.
pub proof fn lemma_codes_differ(a: Color, b: Color)
    requires
        a != b,
    ensures
        a.code() != b.code(),
{
    reveal_strlit("\x1b[31m");
    reveal_strlit("\x1b[32m");
    reveal_strlit("\x1b[34m");
    reveal_strlit("\x1b[0m");
    assert(a.code().len() == b.code().len() ==> a.code()[3] != b.code()[3]);
}

} // verus!
