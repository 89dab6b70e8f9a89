//! The built-in 5x8 bitmap font.
//!
//! A glyph is five column bytes, left to right. Bit `i` of a column byte lights
//! display row `i` of that column, with row 0 at the top.

use vstd::prelude::*;

verus! {

/// Number of column bytes in one glyph.
pub const GLYPH_WIDTH: usize = 5;

/// Number of glyphs stored in the font table.
pub const GLYPH_COUNT: usize = 41;

/// Table index of the first letter glyph (`A`).
pub const LETTER_BASE: u8 = 10;

/// Table index of the first symbol glyph (`!`).
pub const SYMBOL_BASE: u8 = 36;

/// The five columns that the font stores at table index `index`.
///
/// Indices 0 to 9 hold the digits, 10 to 35 the letters `A` to `Z`, and
/// 36 to 40 the symbols `!`, `?`, `.`, `*` and `#`. Outside the table the
/// result is the empty sequence.
pub open spec fn stored_glyph(index: int) -> Seq<u8> {
    if index == 0 {
        seq![0x3Eu8, 0x71u8, 0x49u8, 0x47u8, 0x3Eu8]
    } else if index == 1 {
        seq![0x44u8, 0x42u8, 0x7Fu8, 0x40u8, 0x40u8]
    } else if index == 2 {
        seq![0x42u8, 0x61u8, 0x51u8, 0x49u8, 0x46u8]
    } else if index == 3 {
        seq![0x22u8, 0x41u8, 0x49u8, 0x49u8, 0x36u8]
    } else if index == 4 {
        seq![0x18u8, 0x14u8, 0x12u8, 0x7Fu8, 0x10u8]
    } else if index == 5 {
        seq![0x4Fu8, 0x49u8, 0x49u8, 0x49u8, 0x31u8]
    } else if index == 6 {
        seq![0x3Eu8, 0x49u8, 0x49u8, 0x49u8, 0x30u8]
    } else if index == 7 {
        seq![0x07u8, 0x01u8, 0x61u8, 0x19u8, 0x07u8]
    } else if index == 8 {
        seq![0x36u8, 0x49u8, 0x49u8, 0x49u8, 0x36u8]
    } else if index == 9 {
        seq![0x06u8, 0x49u8, 0x49u8, 0x49u8, 0x36u8]
    } else if index == 10 {
        seq![0x7Eu8, 0x09u8, 0x09u8, 0x09u8, 0x7Eu8]
    } else if index == 11 {
        seq![0x7Fu8, 0x49u8, 0x49u8, 0x49u8, 0x36u8]
    } else if index == 12 {
        seq![0x3Eu8, 0x41u8, 0x41u8, 0x41u8, 0x22u8]
    } else if index == 13 {
        seq![0x7Fu8, 0x41u8, 0x41u8, 0x41u8, 0x3Eu8]
    } else if index == 14 {
        seq![0x7Fu8, 0x49u8, 0x49u8, 0x49u8, 0x49u8]
    } else if index == 15 {
        seq![0x7Fu8, 0x09u8, 0x09u8, 0x09u8, 0x09u8]
    } else if index == 16 {
        seq![0x3Eu8, 0x41u8, 0x49u8, 0x49u8, 0x3Au8]
    } else if index == 17 {
        seq![0x7Fu8, 0x08u8, 0x08u8, 0x08u8, 0x7Fu8]
    } else if index == 18 {
        seq![0x00u8, 0x41u8, 0x7Fu8, 0x41u8, 0x00u8]
    } else if index == 19 {
        seq![0x20u8, 0x41u8, 0x41u8, 0x3Fu8, 0x01u8]
    } else if index == 20 {
        seq![0x7Fu8, 0x08u8, 0x14u8, 0x22u8, 0x41u8]
    } else if index == 21 {
        seq![0x7Fu8, 0x40u8, 0x40u8, 0x40u8, 0x40u8]
    } else if index == 22 {
        seq![0x7Fu8, 0x02u8, 0x0Cu8, 0x02u8, 0x7Fu8]
    } else if index == 23 {
        seq![0x7Fu8, 0x03u8, 0x0Cu8, 0x30u8, 0x7Fu8]
    } else if index == 24 {
        seq![0x3Eu8, 0x41u8, 0x41u8, 0x41u8, 0x3Eu8]
    } else if index == 25 {
        seq![0x7Fu8, 0x09u8, 0x09u8, 0x09u8, 0x06u8]
    } else if index == 26 {
        seq![0x3Eu8, 0x41u8, 0x51u8, 0x21u8, 0x5Eu8]
    } else if index == 27 {
        seq![0x7Fu8, 0x09u8, 0x19u8, 0x29u8, 0x46u8]
    } else if index == 28 {
        seq![0x06u8, 0x49u8, 0x49u8, 0x49u8, 0x30u8]
    } else if index == 29 {
        seq![0x01u8, 0x01u8, 0x7Fu8, 0x01u8, 0x01u8]
    } else if index == 30 {
        seq![0x3Fu8, 0x40u8, 0x40u8, 0x40u8, 0x3Fu8]
    } else if index == 31 {
        seq![0x07u8, 0x38u8, 0x40u8, 0x38u8, 0x07u8]
    } else if index == 32 {
        seq![0x1Fu8, 0x60u8, 0x18u8, 0x60u8, 0x1Fu8]
    } else if index == 33 {
        seq![0x63u8, 0x1Cu8, 0x08u8, 0x1Cu8, 0x63u8]
    } else if index == 34 {
        seq![0x03u8, 0x0Cu8, 0x70u8, 0x0Cu8, 0x03u8]
    } else if index == 35 {
        seq![0x61u8, 0x51u8, 0x49u8, 0x45u8, 0x43u8]
    } else if index == 36 {
        seq![0x00u8, 0x00u8, 0x5Fu8, 0x00u8, 0x00u8]
    } else if index == 37 {
        seq![0x06u8, 0x01u8, 0x51u8, 0x09u8, 0x06u8]
    } else if index == 38 {
        seq![0x00u8, 0x00u8, 0x40u8, 0x00u8, 0x00u8]
    } else if index == 39 {
        seq![0x22u8, 0x14u8, 0x7Fu8, 0x14u8, 0x22u8]
    } else if index == 40 {
        seq![0x14u8, 0x7Fu8, 0x14u8, 0x7Fu8, 0x14u8]
    } else {
        Seq::empty()
    }
}

/// Whether `font` holds exactly the stored glyphs, each at its index.
pub open spec fn is_font(font: [[u8; 5]; 41]) -> bool {
    forall|i: int| 0 <= i < 41 ==> (#[trigger] font[i])@ == stored_glyph(i)
}

/// Builds the font table.
pub fn make_font() -> (font: [[u8; 5]; 41])
    ensures
        is_font(font),
{
    let font: [[u8; 5]; 41] = [
        // 0
        [0b00111110, 0b01110001, 0b01001001, 0b01000111, 0b00111110],
        // 1
        [0b01000100, 0b01000010, 0b01111111, 0b01000000, 0b01000000],
        // 2
        [0b01000010, 0b01100001, 0b01010001, 0b01001001, 0b01000110],
        // 3
        [0b00100010, 0b01000001, 0b01001001, 0b01001001, 0b00110110],
        // 4
        [0b00011000, 0b00010100, 0b00010010, 0b01111111, 0b00010000],
        // 5
        [0b01001111, 0b01001001, 0b01001001, 0b01001001, 0b00110001],
        // 6
        [0b00111110, 0b01001001, 0b01001001, 0b01001001, 0b00110000],
        // 7
        [0b00000111, 0b00000001, 0b01100001, 0b00011001, 0b00000111],
        // 8
        [0b00110110, 0b01001001, 0b01001001, 0b01001001, 0b00110110],
        // 9
        [0b00000110, 0b01001001, 0b01001001, 0b01001001, 0b00110110],
        // A
        [0b01111110, 0b00001001, 0b00001001, 0b00001001, 0b01111110],
        // B
        [0b01111111, 0b01001001, 0b01001001, 0b01001001, 0b00110110],
        // C
        [0b00111110, 0b01000001, 0b01000001, 0b01000001, 0b00100010],
        // D
        [0b01111111, 0b01000001, 0b01000001, 0b01000001, 0b00111110],
        // E
        [0b01111111, 0b01001001, 0b01001001, 0b01001001, 0b01001001],
        // F
        [0b01111111, 0b00001001, 0b00001001, 0b00001001, 0b00001001],
        // G
        [0b00111110, 0b01000001, 0b01001001, 0b01001001, 0b00111010],
        // H
        [0b01111111, 0b00001000, 0b00001000, 0b00001000, 0b01111111],
        // I
        [0b00000000, 0b01000001, 0b01111111, 0b01000001, 0b00000000],
        // J
        [0b00100000, 0b01000001, 0b01000001, 0b00111111, 0b00000001],
        // K
        [0b01111111, 0b00001000, 0b00010100, 0b00100010, 0b01000001],
        // L
        [0b01111111, 0b01000000, 0b01000000, 0b01000000, 0b01000000],
        // M
        [0b01111111, 0b00000010, 0b00001100, 0b00000010, 0b01111111],
        // N
        [0b01111111, 0b00000011, 0b00001100, 0b00110000, 0b01111111],
        // O
        [0b00111110, 0b01000001, 0b01000001, 0b01000001, 0b00111110],
        // P
        [0b01111111, 0b00001001, 0b00001001, 0b00001001, 0b00000110],
        // Q
        [0b00111110, 0b01000001, 0b01010001, 0b00100001, 0b01011110],
        // R
        [0b01111111, 0b00001001, 0b00011001, 0b00101001, 0b01000110],
        // S
        [0b00000110, 0b01001001, 0b01001001, 0b01001001, 0b00110000],
        // T
        [0b00000001, 0b00000001, 0b01111111, 0b00000001, 0b00000001],
        // U
        [0b00111111, 0b01000000, 0b01000000, 0b01000000, 0b00111111],
        // V
        [0b00000111, 0b00111000, 0b01000000, 0b00111000, 0b00000111],
        // W
        [0b00011111, 0b01100000, 0b00011000, 0b01100000, 0b00011111],
        // X
        [0b01100011, 0b00011100, 0b00001000, 0b00011100, 0b01100011],
        // Y
        [0b00000011, 0b00001100, 0b01110000, 0b00001100, 0b00000011],
        // Z
        [0b01100001, 0b01010001, 0b01001001, 0b01000101, 0b01000011],
        // !
        [0b00000000, 0b00000000, 0b01011111, 0b00000000, 0b00000000],
        // ?
        [0b00000110, 0b00000001, 0b01010001, 0b00001001, 0b00000110],
        // .
        [0b00000000, 0b00000000, 0b01000000, 0b00000000, 0b00000000],
        // *
        [0b00100010, 0b00010100, 0b01111111, 0b00010100, 0b00100010],
        // #
        [0b00010100, 0b01111111, 0b00010100, 0b01111111, 0b00010100],
    ];
    font
}

} // verus!
