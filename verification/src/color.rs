//! ANSI color escape codes for the presentation layer. The core itself
//! never writes colored output; it only supplies the codes.

use vstd::prelude::*;

verus! {

/// A terminal color, as an ANSI escape sequence.
#[derive(Debug)]
pub enum Colors {
    Reset,
    Red,
    Green,
    Yellow,
    Blue,
    Magenta,
    Cyan,
    White,
}

impl Colors {
    /// The escape sequence of this color.
    pub open spec fn spec_code(&self) -> Seq<char> {
        match self {
            Colors::Reset => "\x1b[0m"@,
            Colors::Red => "\x1b[31m"@,
            Colors::Green => "\x1b[32m"@,
            Colors::Yellow => "\x1b[33m"@,
            Colors::Blue => "\x1b[34m"@,
            Colors::Magenta => "\x1b[35m"@,
            Colors::Cyan => "\x1b[36m"@,
            Colors::White => "\x1b[37m"@,
        }
    }

    /// The escape sequence of this color, as an owned string.
    pub fn to_string(&self) -> (r: String)
        ensures
            r@ == self.spec_code(),
    {
        match self {
            Colors::Reset => String::from_str("\x1b[0m"),
            Colors::Red => String::from_str("\x1b[31m"),
            Colors::Green => String::from_str("\x1b[32m"),
            Colors::Yellow => String::from_str("\x1b[33m"),
            Colors::Blue => String::from_str("\x1b[34m"),
            Colors::Magenta => String::from_str("\x1b[35m"),
            Colors::Cyan => String::from_str("\x1b[36m"),
            Colors::White => String::from_str("\x1b[37m"),
        }
    }
}

} // verus!
