//! Classification of characters into glyphs.

use vstd::prelude::*;
use crate::font::{stored_glyph, GLYPH_COUNT, LETTER_BASE, SYMBOL_BASE};

verus! {

/// What the display shows for one character cell.
#[derive(Clone, Copy, Debug, PartialEq, Eq, Structural)]
pub enum Glyph {
    /// A decimal digit, by its value.
    Digit(u8),
    /// A letter, by its position in the alphabet, counted from zero.
    Letter(u8),
    /// One of `!`, `?`, `.`, `*`, `#`, by its position in that list.
    Symbol(u8),
    /// An empty cell.
    Blank,
    /// A solid block, shown for a character that has no glyph.
    Unknown,
}

/// The character with an ASCII lower-case letter replaced by its capital.
pub open spec fn ascii_upper(c: char) -> char {
    if 'a' <= c <= 'z' {
        ((c as u32) - 32) as char
    } else {
        c
    }
}

/// The glyph of a character that is already upper-case.
pub open spec fn classify_upper(c: char) -> Glyph {
    if '0' <= c <= '9' {
        Glyph::Digit(((c as u32) - ('0' as u32)) as u8)
    } else if 'A' <= c <= 'Z' {
        Glyph::Letter(((c as u32) - ('A' as u32)) as u8)
    } else if c == '!' {
        Glyph::Symbol(0)
    } else if c == '?' {
        Glyph::Symbol(1)
    } else if c == '.' {
        Glyph::Symbol(2)
    } else if c == '*' {
        Glyph::Symbol(3)
    } else if c == '#' {
        Glyph::Symbol(4)
    } else if c == ' ' {
        Glyph::Blank
    } else {
        Glyph::Unknown
    }
}

/// The glyph of any character: letters are classified without regard to case.
pub open spec fn classify_spec(c: char) -> Glyph {
    classify_upper(ascii_upper(c))
}

/// Whether the font stores a glyph for `c`: a digit, a letter of either case,
/// or one of the five symbols.
pub open spec fn is_supported(c: char) -> bool {
    classify_spec(c).table_index() is Some
}

/// Five columns that all hold `byte`.
pub open spec fn solid_columns(byte: u8) -> Seq<u8> {
    Seq::new(5, |i: int| byte)
}

impl Glyph {
    /// Whether the number carried by the glyph is in the range of its kind.
    pub open spec fn wf(self) -> bool {
        match self {
            Glyph::Digit(n) => n < 10,
            Glyph::Letter(n) => n < 26,
            Glyph::Symbol(n) => n < 5,
            Glyph::Blank => true,
            Glyph::Unknown => true,
        }
    }

    /// The glyph's index in the font table. The blank and the unknown glyph
    /// have none, and neither has a glyph whose number is out of range.
    pub open spec fn table_index(self) -> Option<int> {
        match self {
            Glyph::Digit(n) if n < 10 => Some(n as int),
            Glyph::Letter(n) if n < 26 => Some(10 + n),
            Glyph::Symbol(n) if n < 5 => Some(36 + n),
            _ => None,
        }
    }

    /// The five columns shown for the glyph: the stored ones for a table
    /// entry, all dark for a blank, all lit for anything else.
    pub open spec fn columns(self) -> Seq<u8> {
        match self.table_index() {
            Some(index) => stored_glyph(index),
            None => if self == Glyph::Blank {
                solid_columns(0x00)
            } else {
                solid_columns(0xFF)
            },
        }
    }

    /// Classifies one character.
    pub fn classify(c: char) -> (glyph: Glyph)
        ensures
            glyph == classify_spec(c),
            glyph.wf(),
    {
        let code: u32 = c as u32;
        let upper: u32 = if 0x61 <= code && code <= 0x7A {
            code - 32
        } else {
            code
        };
        if 0x30 <= upper && upper <= 0x39 {
            Glyph::Digit((upper - 0x30) as u8)
        } else if 0x41 <= upper && upper <= 0x5A {
            Glyph::Letter((upper - 0x41) as u8)
        } else if upper == 0x21 {
            Glyph::Symbol(0)
        } else if upper == 0x3F {
            Glyph::Symbol(1)
        } else if upper == 0x2E {
            Glyph::Symbol(2)
        } else if upper == 0x2A {
            Glyph::Symbol(3)
        } else if upper == 0x23 {
            Glyph::Symbol(4)
        } else if upper == 0x20 {
            Glyph::Blank
        } else {
            Glyph::Unknown
        }
    }

    /// The glyph's index in the font table, or `None` where it has none.
    pub fn index(&self) -> (index: Option<usize>)
        ensures
            index is Some <==> self.table_index() is Some,
            index is Some ==> index.unwrap() == self.table_index().unwrap(),
            index is Some ==> index.unwrap() < GLYPH_COUNT,
    {
        match *self {
            Glyph::Digit(n) => if n < 10 {
                Some(n as usize)
            } else {
                None
            },
            Glyph::Letter(n) => if n < 26 {
                Some((LETTER_BASE + n) as usize)
            } else {
                None
            },
            Glyph::Symbol(n) => if n < 5 {
                Some((SYMBOL_BASE + n) as usize)
            } else {
                None
            },
            Glyph::Blank => None,
            Glyph::Unknown => None,
        }
    }
}

/// Every glyph is shown as exactly five columns.
pub proof fn lemma_columns_len(glyph: Glyph)
    ensures
        glyph.columns().len() == 5,
{
}

/// Classification is total and well-formed, and does not tell the two cases
/// of a letter apart.
pub proof fn lemma_classify_ignores_case(c: char)
    ensures
        classify_spec(c).wf(),
        classify_spec(ascii_upper(c)) == classify_spec(c),
{
}

/// No stored glyph is the solid block that marks an unknown character:
/// every stored column leaves the bottom row dark.
pub proof fn lemma_block_is_no_table_entry(index: int)
    requires
        0 <= index < 41,
    ensures
        stored_glyph(index) != solid_columns(0xFF),
        forall|j: int| 0 <= j < 5 ==> #[trigger] stored_glyph(index)[j] < 0x80,
{
    assert(solid_columns(0xFF)[0] == 0xFF);
    assert(stored_glyph(index)[0] < 0x80);
}

} // verus!
