//! A model of the display controller, as far as the driver's frames touch
//! it, and what the driver's frames do to it.
//!
//! The controller keeps a window of columns and pages, a cursor inside it,
//! and one byte of display memory for each column of each page. A data byte
//! is stored at the cursor, which then moves one column on; at the window's
//! last column it returns to the first one and moves one page on; at the
//! window's last page it returns to the first page. The output is on or off;
//! the memory can be written either way.

use vstd::prelude::*;
use crate::display::{
    clear_sequence, command_frame, dark_chunk, data_bytes, frame_data, init_sequence,
    is_command_frame, is_data_frame, lemma_dark_chunks, window_sequence, CLEAR_CHUNKS,
    CMD_COLUMN_WINDOW, CMD_DISPLAY_OFF, CMD_DISPLAY_ON, CMD_PAGE_WINDOW,
};
use crate::entry::{decimal_text, lemma_decimal_text_len};
use crate::render::{lemma_render_data, render_sequence, screen_sequence};

verus! {

/// The output switch, addressing state and display memory of the controller.
pub struct Controller {
    /// Whether the panel output is on.
    pub lit: bool,
    /// First column of the window.
    pub column_start: int,
    /// Last column of the window.
    pub column_end: int,
    /// First page of the window.
    pub page_start: int,
    /// Last page of the window.
    pub page_end: int,
    /// Column of the cursor.
    pub column: int,
    /// Page of the cursor.
    pub page: int,
    /// The byte shown at each page and column.
    pub memory: Map<(int, int), u8>,
}

/// The page and column of the `k`-th byte of the panel, counted row by row
/// from the origin.
pub open spec fn cell(k: int) -> (int, int) {
    (k / 128, k % 128)
}

impl Controller {
    /// Whether the window spans the whole panel.
    pub open spec fn spans_panel(self) -> bool {
        &&& self.column_start == 0
        &&& self.column_end == 127
        &&& self.page_start == 0
        &&& self.page_end == 3
    }

    /// Whether the cursor is at the panel's origin.
    pub open spec fn at_origin(self) -> bool {
        self.column == 0 && self.page == 0
    }

    /// The controller after one data byte.
    pub open spec fn write_byte(self, byte: u8) -> Controller {
        Controller {
            memory: self.memory.insert((self.page, self.column), byte),
            column: if self.column == self.column_end {
                self.column_start
            } else {
                self.column + 1
            },
            page: if self.column != self.column_end {
                self.page
            } else if self.page == self.page_end {
                self.page_start
            } else {
                self.page + 1
            },
            ..self
        }
    }

    /// The controller after a run of data bytes.
    pub open spec fn write_all(self, bytes: Seq<u8>) -> Controller
        decreases bytes.len(),
    {
        if bytes.len() == 0 {
            self
        } else {
            self.write_all(bytes.drop_last()).write_byte(bytes.last())
        }
    }

    /// The controller after one frame. A data frame stores its bytes. Of the
    /// commands, two switch the output, and the two that set the window also
    /// move the cursor to the window's start; the others leave the output,
    /// addressing and memory alone.
    pub open spec fn apply(self, frame: Seq<u8>) -> Controller {
        if is_data_frame(frame) {
            self.write_all(frame_data(frame))
        } else if frame == command_frame(seq![CMD_DISPLAY_ON]) {
            Controller { lit: true, ..self }
        } else if frame == command_frame(seq![CMD_DISPLAY_OFF]) {
            Controller { lit: false, ..self }
        } else if is_command_frame(frame) && frame.len() == 4 && frame[1] == CMD_COLUMN_WINDOW {
            Controller {
                column_start: frame[2] as int,
                column_end: frame[3] as int,
                column: frame[2] as int,
                ..self
            }
        } else if is_command_frame(frame) && frame.len() == 4 && frame[1] == CMD_PAGE_WINDOW {
            Controller {
                page_start: frame[2] as int,
                page_end: frame[3] as int,
                page: frame[2] as int,
                ..self
            }
        } else {
            self
        }
    }

    /// The controller after a run of frames.
    pub open spec fn run(self, frames: Seq<Seq<u8>>) -> Controller
        decreases frames.len(),
    {
        if frames.len() == 0 {
            self
        } else {
            self.run(frames.drop_last()).apply(frames.last())
        }
    }

    /// Whether the panel shows `bytes` from the origin on, row by row, and is
    /// dark after them.
    pub open spec fn shows(self, bytes: Seq<u8>) -> bool {
        forall|k: int|
            0 <= k < 512 ==> #[trigger] self.memory[cell(k)] == if k < bytes.len() {
                bytes[k]
            } else {
                0u8
            }
    }
}

/// Writing two runs of bytes one after the other is writing their
/// concatenation.
pub proof fn lemma_write_all_concat(c: Controller, first: Seq<u8>, second: Seq<u8>)
    ensures
        c.write_all(first + second) == c.write_all(first).write_all(second),
    decreases second.len(),
{
    if second.len() == 0 {
        assert(first + second =~= first);
    } else {
        lemma_write_all_concat(c, first, second.drop_last());
        assert((first + second).drop_last() =~= first + second.drop_last());
        assert((first + second).last() == second.last());
    }
}

/// Sending two runs of frames one after the other is sending their
/// concatenation.
pub proof fn lemma_run_concat(c: Controller, first: Seq<Seq<u8>>, second: Seq<Seq<u8>>)
    ensures
        c.run(first + second) == c.run(first).run(second),
    decreases second.len(),
{
    if second.len() == 0 {
        assert(first + second =~= first);
    } else {
        lemma_run_concat(c, first, second.drop_last());
        assert((first + second).drop_last() =~= first + second.drop_last());
        assert((first + second).last() == second.last());
    }
}

/// A run of data frames does to the controller what its data bytes do, however
/// they are cut into frames.
pub proof fn lemma_run_data_frames(c: Controller, frames: Seq<Seq<u8>>)
    requires
        forall|i: int| 0 <= i < frames.len() ==> is_data_frame(#[trigger] frames[i]),
    ensures
        c.run(frames) == c.write_all(data_bytes(frames)),
    decreases frames.len(),
{
    if frames.len() > 0 {
        lemma_run_data_frames(c, frames.drop_last());
        lemma_write_all_concat(c, data_bytes(frames.drop_last()), frame_data(frames.last()));
    }
}

/// One frame sent alone does to the controller what that frame does.
pub proof fn lemma_run_one(c: Controller, frame: Seq<u8>)
    ensures
        c.run(seq![frame]) == c.apply(frame),
{
    assert(seq![frame].drop_last() =~= Seq::<Seq<u8>>::empty());
    reveal_with_fuel(Controller::run, 2);
}

/// Data bytes leave the output switch as it is.
pub proof fn lemma_write_keeps_output(c: Controller, bytes: Seq<u8>)
    ensures
        c.write_all(bytes).lit == c.lit,
    decreases bytes.len(),
{
    if bytes.len() > 0 {
        lemma_write_keeps_output(c, bytes.drop_last());
    }
}

/// Commands other than the two that set the window leave window, cursor and
/// memory as they are.
pub proof fn lemma_plain_commands(c: Controller, frames: Seq<Seq<u8>>)
    requires
        forall|i: int|
            0 <= i < frames.len() ==> is_command_frame(#[trigger] frames[i]) && frames[i].len()
                != 4,
    ensures
        c.run(frames) == (Controller { lit: c.run(frames).lit, ..c }),
    decreases frames.len(),
{
    if frames.len() > 0 {
        lemma_plain_commands(c, frames.drop_last());
        assert(is_command_frame(frames[frames.len() - 1]));
    }
}

/// The start-up sequence ends with the output on, and leaves window, cursor
/// and memory as they were.
pub proof fn lemma_initialize(c: Controller)
    ensures
        c.run(init_sequence()) == (Controller { lit: true, ..c }),
{
    let frames = init_sequence();
    assert forall|i: int| 0 <= i < frames.len() implies is_command_frame(#[trigger] frames[i])
        && frames[i].len() != 4 by {}
    lemma_plain_commands(c, frames);
    assert(frames.last() =~= command_frame(seq![CMD_DISPLAY_ON]));
}

/// The two window frames set the window and put the cursor at its start,
/// whatever the controller's state was.
pub proof fn lemma_window(
    c: Controller,
    column_start: u8,
    column_end: u8,
    page_start: u8,
    page_end: u8,
)
    ensures
        c.run(window_sequence(column_start, column_end, page_start, page_end)) == (Controller {
            column_start: column_start as int,
            column_end: column_end as int,
            page_start: page_start as int,
            page_end: page_end as int,
            column: column_start as int,
            page: page_start as int,
            memory: c.memory,
            lit: c.lit,
        }),
{
    let frames = window_sequence(column_start, column_end, page_start, page_end);
    assert(frames.drop_last().drop_last() =~= Seq::<Seq<u8>>::empty());
    assert(frames.drop_last().last() == frames[0]);
    reveal_with_fuel(Controller::run, 3);
}

/// With the window over the whole panel and the cursor at the origin, a run
/// of at most one panel's worth of bytes lands row by row from the origin and
/// changes nothing else; the cursor ends behind the last byte, and back at the
/// origin when the panel is full.
pub proof fn lemma_fill(c: Controller, bytes: Seq<u8>)
    requires
        c.spans_panel(),
        c.at_origin(),
        bytes.len() <= 512,
    ensures
        c.write_all(bytes).spans_panel(),
        (c.write_all(bytes).page, c.write_all(bytes).column) == cell((bytes.len() % 512) as int),
        forall|k: int|
            0 <= k < bytes.len() ==> #[trigger] c.write_all(bytes).memory[cell(k)] == bytes[k],
        forall|k: int|
            bytes.len() <= k < 512 ==> #[trigger] c.write_all(bytes).memory[cell(k)]
                == c.memory[cell(k)],
    decreases bytes.len(),
{
    if bytes.len() > 0 {
        let before = c.write_all(bytes.drop_last());
        let n: int = bytes.len() - 1;
        lemma_fill(c, bytes.drop_last());
        assert((before.page, before.column) == cell(n as int));
        let after = before.write_byte(bytes.last());
        assert(after == c.write_all(bytes));
        assert forall|k: int| 0 <= k < 512 && k != n implies #[trigger] after.memory[cell(k)]
            == before.memory[cell(k)] by {
            assert(cell(k) != cell(n));
        }
        assert(after.memory[cell(n)] == bytes.last());
    }
}

/// Blanking the panel leaves the output on, the window over the whole panel,
/// the cursor at the origin and every byte of the panel dark, whatever the
/// controller's output switch, window, cursor and memory were before.
pub proof fn lemma_clear(c: Controller)
    ensures
        c.run(clear_sequence()).lit,
        c.run(clear_sequence()).spans_panel(),
        c.run(clear_sequence()).at_origin(),
        c.run(clear_sequence()).shows(Seq::empty()),
{
    let off = seq![command_frame(seq![CMD_DISPLAY_OFF])];
    let window = window_sequence(0, 127, 0, 3);
    let chunks = Seq::new(CLEAR_CHUNKS as nat, |i: int| dark_chunk());
    let on = seq![command_frame(seq![CMD_DISPLAY_ON])];
    let zeros = Seq::new(512, |k: int| 0u8);
    lemma_run_concat(c, off + window + chunks, on);
    lemma_run_concat(c, off + window, chunks);
    lemma_run_concat(c, off, window);
    lemma_run_one(c, off[0]);
    assert(off =~= seq![off[0]]);
    let dark = c.run(off);
    lemma_window(dark, 0, 127, 0, 3);
    let ready = dark.run(window);
    lemma_run_data_frames(ready, chunks);
    lemma_dark_chunks(CLEAR_CHUNKS as nat);
    assert(data_bytes(chunks) =~= zeros);
    lemma_fill(ready, zeros);
    let blank = ready.write_all(zeros);
    lemma_run_one(blank, on[0]);
    assert(on =~= seq![on[0]]);
    assert(c.run(clear_sequence()) == (Controller { lit: true, ..blank }));
}

/// Blanking the panel and then drawing a text that fits on it leaves the
/// output on and shows the text's glyph columns row by row from the panel's
/// origin, with the rest of the panel dark, whatever the controller's state
/// was before.
pub proof fn lemma_screen(c: Controller, text: Seq<char>)
    requires
        5 * text.len() <= 512,
    ensures
        c.run(screen_sequence(text)).lit,
        c.run(screen_sequence(text)).spans_panel(),
        c.run(screen_sequence(text)).shows(data_bytes(render_sequence(text))),
        (c.run(screen_sequence(text)).page, c.run(screen_sequence(text)).column) == cell(
            ((5 * text.len()) % 512) as int,
        ),
{
    let glyphs = render_sequence(text);
    lemma_run_concat(c, clear_sequence(), glyphs);
    lemma_clear(c);
    let blank = c.run(clear_sequence());
    lemma_render_data(text);
    lemma_run_data_frames(blank, glyphs);
    lemma_fill(blank, data_bytes(glyphs));
    lemma_write_keeps_output(blank, data_bytes(glyphs));
    let after = blank.write_all(data_bytes(glyphs));
    assert forall|k: int| 0 <= k < 512 implies #[trigger] after.memory[cell(k)] == if k
        < data_bytes(glyphs).len() {
        data_bytes(glyphs)[k]
    } else {
        0u8
    } by {
        if k >= data_bytes(glyphs).len() {
            assert(blank.memory[cell(k)] == 0u8);
        }
    }
}

/// The frames that show a running number always leave the output on and the
/// panel showing that number's text from the origin and nothing else,
/// whatever was on the panel and wherever the cursor stood before.
pub proof fn lemma_number_screen(c: Controller, value: i64)
    ensures
        c.run(screen_sequence(decimal_text(value as int))).lit,
        c.run(screen_sequence(decimal_text(value as int))).shows(
            data_bytes(render_sequence(decimal_text(value as int))),
        ),
{
    lemma_decimal_text_len(value);
    lemma_screen(c, decimal_text(value as int));
}

} // verus!
