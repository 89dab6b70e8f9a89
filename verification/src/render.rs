//! The font renderer: from text to the data frames that draw it.

use vstd::prelude::*;
use vstd::string::StrSliceExecFns;
use crate::display::{
    clear, clear_sequence, data_bytes, data_frame, frame_data, frames_of, is_data_frame,
    write_glyph_columns,
};
use crate::font::{is_font, make_font, stored_glyph};
use crate::glyph::{
    ascii_upper, classify_spec, is_supported, lemma_block_is_no_table_entry, solid_columns, Glyph,
};

verus! {

/// The frames that draw `text` from the cursor on: one data frame per
/// character, left to right, each with that character's five columns.
pub open spec fn render_sequence(text: Seq<char>) -> Seq<Seq<u8>> {
    Seq::new(text.len(), |i: int| data_frame(classify_spec(text[i]).columns()))
}

/// The frames that show `text` on an otherwise dark panel: those that blank
/// the panel, then those that draw the text from the origin.
pub open spec fn screen_sequence(text: Seq<char>) -> Seq<Seq<u8>> {
    clear_sequence() + render_sequence(text)
}

/// The message shown when the device gives up.
pub open spec fn fault_text() -> Seq<char> {
    seq!['p', 'a', 'n', 'i', 'c']
}

/// Owner of the font table.
pub struct Renderer {
    font: [[u8; 5]; 41],
}

impl Renderer {
    #[verifier::type_invariant]
    spec fn holds_font(self) -> bool {
        is_font(self.font)
    }

    /// A renderer with the built-in font: its table holds each stored glyph
    /// at its index.
    pub fn new() -> (renderer: Renderer)
        ensures
            is_font(renderer.table()),
    {
        Renderer { font: make_font() }
    }

    /// The font table that the renderer draws from.
    pub closed spec fn table(self) -> [[u8; 5]; 41] {
        self.font
    }

    /// The five columns that the display shows for `glyph`.
    pub fn glyph_columns(&self, glyph: Glyph) -> (columns: [u8; 5])
        ensures
            columns@ == glyph.columns(),
    {
        proof {
            use_type_invariant(self);
        }
        match glyph.index() {
            Some(index) => self.font[index],
            None => {
                let columns: [u8; 5] = if glyph == Glyph::Blank {
                    [0x00u8; 5]
                } else {
                    [0xFFu8; 5]
                };
                assert(columns@ =~= glyph.columns());
                columns
            },
        }
    }

    /// The frames that draw `text`, to be sent in order. The caller blanks the
    /// panel first, so that the text starts at the panel's origin.
    pub fn render(&self, text: &str) -> (frames: Vec<Vec<u8>>)
        ensures
            frames_of(frames) == render_sequence(text@),
    {
        let mut frames: Vec<Vec<u8>> = Vec::new();
        let len = text.unicode_len();
        let mut i: usize = 0;
        while i < len
            invariant
                len == text@.len(),
                i <= len,
                frames_of(frames) == render_sequence(text@.take(i as int)),
            decreases len - i,
        {
            let ghost before = frames_of(frames);
            let glyph = Glyph::classify(text.get_char(i));
            frames.push(write_glyph_columns(self.glyph_columns(glyph)));
            assert(frames_of(frames) =~~= before.push(data_frame(glyph.columns())));
            assert(before.push(data_frame(glyph.columns())) =~~= render_sequence(
                text@.take(i + 1),
            ));
            i += 1;
        }
        assert(text@.take(i as int) == text@);
        frames
    }

    /// The frames that replace whatever the panel shows by `text`.
    pub fn screen(&self, text: &str) -> (frames: Vec<Vec<u8>>)
        ensures
            frames_of(frames) == screen_sequence(text@),
    {
        let mut frames = clear();
        let mut drawn = self.render(text);
        let ghost blank = frames_of(frames);
        let ghost glyphs = frames_of(drawn);
        frames.append(&mut drawn);
        assert(frames_of(frames) =~~= blank + glyphs);
        frames
    }

    /// The frames that replace whatever the panel shows by the fault message.
    /// They are the last thing sent before the device halts.
    pub fn fault_screen(&self) -> (frames: Vec<Vec<u8>>)
        ensures
            frames_of(frames) == screen_sequence(fault_text()),
    {
        let text = "panic";
        proof {
            reveal_strlit("panic");
            assert(text@ =~= fault_text());
        }
        self.screen(text)
    }
}

/// The data that drawing one character carries is the five columns of its
/// glyph.
pub proof fn lemma_render_one(c: char)
    ensures
        render_sequence(seq![c]) == seq![data_frame(classify_spec(c).columns())],
        data_bytes(render_sequence(seq![c])) == classify_spec(c).columns(),
        data_bytes(render_sequence(seq![c])).len() == 5,
{
    let frames = render_sequence(seq![c]);
    assert(frames =~= seq![data_frame(classify_spec(c).columns())]);
    assert(frames.drop_last() =~= Seq::<Seq<u8>>::empty());
    reveal_with_fuel(data_bytes, 2);
    assert(data_bytes(frames) =~= classify_spec(c).columns());
}

/// A character that the font stores is drawn with exactly five data bytes,
/// the stored columns of its glyph; a letter is drawn the same in either case.
pub proof fn lemma_render_supported(c: char)
    requires
        is_supported(c),
    ensures
        data_bytes(render_sequence(seq![c])).len() == 5,
        data_bytes(render_sequence(seq![c])) == stored_glyph(
            classify_spec(c).table_index().unwrap(),
        ),
        render_sequence(seq![c]) == render_sequence(seq![ascii_upper(c)]),
{
    lemma_render_one(c);
    lemma_render_one(ascii_upper(c));
}

/// A character that is neither stored in the font nor a space is drawn with
/// exactly five data bytes that are all set, which no table entry is.
pub proof fn lemma_render_unsupported(c: char)
    requires
        classify_spec(c) == Glyph::Unknown,
    ensures
        data_bytes(render_sequence(seq![c])).len() == 5,
        data_bytes(render_sequence(seq![c])) == solid_columns(0xFF),
        forall|index: int|
            0 <= index < 41 ==> data_bytes(render_sequence(seq![c])) != #[trigger] stored_glyph(
                index,
            ),
{
    lemma_render_one(c);
    assert forall|index: int| 0 <= index < 41 implies data_bytes(render_sequence(seq![c]))
        != #[trigger] stored_glyph(index) by {
        lemma_block_is_no_table_entry(index);
    }
}

/// A space is drawn with exactly five zero bytes.
pub proof fn lemma_render_space()
    ensures
        data_bytes(render_sequence(seq![' '])).len() == 5,
        data_bytes(render_sequence(seq![' '])) == solid_columns(0x00),
{
    lemma_render_one(' ');
}

/// Drawing a text carries five data bytes for each character, in the order of
/// the text: byte `5 * i + j` is column `j` of the glyph of character `i`.
pub proof fn lemma_render_data(text: Seq<char>)
    ensures
        forall|i: int| 0 <= i < text.len() ==> is_data_frame(#[trigger] render_sequence(text)[i]),
        data_bytes(render_sequence(text)).len() == 5 * text.len(),
        forall|i: int, j: int|
            0 <= i < text.len() && 0 <= j < 5 ==> data_bytes(render_sequence(text))[5 * i + j]
                == (#[trigger] classify_spec(text[i]).columns()[j]),
    decreases text.len(),
{
    let frames = render_sequence(text);
    if text.len() > 0 {
        let shorter = text.drop_last();
        lemma_render_data(shorter);
        assert(frames.drop_last() =~= render_sequence(shorter));
        let last = classify_spec(text.last()).columns();
        assert(frame_data(frames.last()) =~= last);
        assert(data_bytes(frames) == data_bytes(render_sequence(shorter)) + last);
        assert forall|i: int, j: int| 0 <= i < text.len() && 0 <= j < 5 implies data_bytes(
            frames,
        )[5 * i + j] == (#[trigger] classify_spec(text[i]).columns()[j]) by {
            if i < shorter.len() {
                assert(shorter[i] == text[i]);
            }
        }
    }
}

} // verus!
