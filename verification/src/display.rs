//! The display driver: the bus frames that bring the controller into a known
//! state, set its addressing window, blank the panel and carry glyph columns.
//!
//! Every frame is one bus write to the display. Its first byte says whether
//! the rest are commands or pixel data. The driver never reads anything back.

use vstd::prelude::*;

verus! {

/// Seven-bit bus address of the display.
pub const DEVICE_ADDRESS: u8 = 0x3C;

/// First byte of a frame whose remaining bytes are commands.
pub const COMMAND_PREFIX: u8 = 0x00;

/// First byte of a frame whose remaining bytes are pixel data.
pub const DATA_PREFIX: u8 = 0x40;

/// Width of the panel in pixel columns.
pub const PANEL_WIDTH: usize = 128;

/// Height of the panel in pixel rows.
pub const PANEL_HEIGHT: usize = 32;

/// Number of eight-row pages that cover the panel.
pub const PANEL_PAGES: usize = 4;

/// Most data bytes that one frame carries while the panel is blanked.
pub const CHUNK_LEN: usize = 16;

/// Number of data frames that blank the panel.
pub const CLEAR_CHUNKS: usize = 32;

/// Command: switch the panel output off.
pub const CMD_DISPLAY_OFF: u8 = 0xAE;

/// Command: switch the panel output on.
pub const CMD_DISPLAY_ON: u8 = 0xAF;

/// Command: set the number of rows driven, less one; one parameter byte.
pub const CMD_MULTIPLEX_RATIO: u8 = 0xA8;

/// Command: set the vertical shift of the picture; one parameter byte.
pub const CMD_DISPLAY_OFFSET: u8 = 0xD3;

/// Command: start the picture at memory line zero.
pub const CMD_START_LINE_ZERO: u8 = 0x40;

/// Command: map column 127 to the first segment, for the way the panel is
/// mounted.
pub const CMD_SEGMENT_REMAP: u8 = 0xA1;

/// Command: scan the rows from the last to the first, for the way the panel is
/// mounted.
pub const CMD_SCAN_REVERSED: u8 = 0xC8;

/// Command: set the row pin layout; one parameter byte.
pub const CMD_COM_PINS: u8 = 0xDA;

/// Command: set the addressing mode; one parameter byte, zero for horizontal.
pub const CMD_ADDRESSING_MODE: u8 = 0x20;

/// Command: set the contrast; one parameter byte.
pub const CMD_CONTRAST: u8 = 0x81;

/// Command: show what the display memory holds.
pub const CMD_FOLLOW_MEMORY: u8 = 0xA4;

/// Command: show set bits as lit pixels.
pub const CMD_NOT_INVERTED: u8 = 0xA6;

/// Command: set the clock divide ratio and oscillator frequency; one parameter
/// byte.
pub const CMD_CLOCK_DIVIDE: u8 = 0xD5;

/// Command: set the charge pump; one parameter byte, 0x14 to enable it.
pub const CMD_CHARGE_PUMP: u8 = 0x8D;

/// Command: set the first and last column of the addressing window; two
/// parameter bytes.
pub const CMD_COLUMN_WINDOW: u8 = 0x21;

/// Command: set the first and last page of the addressing window; two
/// parameter bytes.
pub const CMD_PAGE_WINDOW: u8 = 0x22;

/// The frame that carries `body` as commands.
pub open spec fn command_frame(body: Seq<u8>) -> Seq<u8> {
    seq![COMMAND_PREFIX] + body
}

/// The frame that carries `body` as pixel data.
pub open spec fn data_frame(body: Seq<u8>) -> Seq<u8> {
    seq![DATA_PREFIX] + body
}

/// Whether a frame carries pixel data.
pub open spec fn is_data_frame(frame: Seq<u8>) -> bool {
    frame.len() > 0 && frame[0] == DATA_PREFIX
}

/// Whether a frame carries commands.
pub open spec fn is_command_frame(frame: Seq<u8>) -> bool {
    frame.len() > 0 && frame[0] == COMMAND_PREFIX
}

/// The frames of a list, each as the sequence of its bytes.
pub open spec fn frames_of(frames: Vec<Vec<u8>>) -> Seq<Seq<u8>> {
    Seq::new(frames@.len(), |i: int| frames@[i]@)
}

/// The pixel data that a frame carries: what follows the prefix of a data
/// frame, nothing for any other frame.
pub open spec fn frame_data(frame: Seq<u8>) -> Seq<u8> {
    if is_data_frame(frame) {
        frame.skip(1)
    } else {
        Seq::empty()
    }
}

/// All pixel data that a run of frames carries, in the order sent.
pub open spec fn data_bytes(frames: Seq<Seq<u8>>) -> Seq<u8>
    decreases frames.len(),
{
    if frames.len() == 0 {
        Seq::empty()
    } else {
        data_bytes(frames.drop_last()) + frame_data(frames.last())
    }
}

/// The start-up sequence: output off, panel geometry, addressing mode,
/// contrast, charge pump, output on.
pub open spec fn init_sequence() -> Seq<Seq<u8>> {
    seq![
        command_frame(seq![CMD_DISPLAY_OFF]),
        command_frame(seq![CMD_MULTIPLEX_RATIO, 31u8]),
        command_frame(seq![CMD_DISPLAY_OFFSET, 0u8]),
        command_frame(seq![CMD_START_LINE_ZERO]),
        command_frame(seq![CMD_SEGMENT_REMAP]),
        command_frame(seq![CMD_SCAN_REVERSED]),
        command_frame(seq![CMD_COM_PINS, 0x02u8]),
        command_frame(seq![CMD_ADDRESSING_MODE, 0u8]),
        command_frame(seq![CMD_CONTRAST, 0x7Fu8]),
        command_frame(seq![CMD_FOLLOW_MEMORY]),
        command_frame(seq![CMD_NOT_INVERTED]),
        command_frame(seq![CMD_CLOCK_DIVIDE, 0x80u8]),
        command_frame(seq![CMD_CHARGE_PUMP, 0x14u8]),
        command_frame(seq![CMD_DISPLAY_ON]),
    ]
}

/// The two frames that set the addressing window: columns first, then pages.
pub open spec fn window_sequence(
    column_start: u8,
    column_end: u8,
    page_start: u8,
    page_end: u8,
) -> Seq<Seq<u8>> {
    seq![
        command_frame(seq![CMD_COLUMN_WINDOW, column_start, column_end]),
        command_frame(seq![CMD_PAGE_WINDOW, page_start, page_end]),
    ]
}

/// A data frame of `CHUNK_LEN` dark columns.
pub open spec fn dark_chunk() -> Seq<u8> {
    data_frame(Seq::new(CHUNK_LEN as nat, |i: int| 0u8))
}

/// The frames that blank the panel: output off, the window over the whole
/// panel, dark chunks that cover it once, output on.
pub open spec fn clear_sequence() -> Seq<Seq<u8>> {
    seq![command_frame(seq![CMD_DISPLAY_OFF])] + window_sequence(0, 127, 0, 3) + Seq::new(
        CLEAR_CHUNKS as nat,
        |i: int| dark_chunk(),
    ) + seq![command_frame(seq![CMD_DISPLAY_ON])]
}

/// Builds a frame from its prefix and body.
fn framed(prefix: u8, body: &[u8]) -> (frame: Vec<u8>)
    requires
        body@.len() < usize::MAX,
    ensures
        frame@ == seq![prefix] + body@,
{
    let mut frame: Vec<u8> = Vec::new();
    frame.push(prefix);
    let mut i: usize = 0;
    while i < body.len()
        invariant
            i <= body@.len(),
            frame@ == seq![prefix] + body@.take(i as int),
        decreases body@.len() - i,
    {
        frame.push(body[i]);
        assert(body@.take(i + 1) == body@.take(i as int).push(body@[i as int]));
        i += 1;
    }
    assert(body@.take(i as int) == body@);
    frame
}

/// Builds the frame that carries `body` as commands.
fn command(body: &[u8]) -> (frame: Vec<u8>)
    requires
        body@.len() < usize::MAX,
    ensures
        frame@ == command_frame(body@),
{
    framed(COMMAND_PREFIX, body)
}

/// Builds the frame that carries `body` as pixel data.
fn data(body: &[u8]) -> (frame: Vec<u8>)
    requires
        body@.len() < usize::MAX,
    ensures
        frame@ == data_frame(body@),
{
    framed(DATA_PREFIX, body)
}

/// The frames that bring the controller from any state into the one the
/// device works in, to be sent in order.
pub fn initialize() -> (frames: Vec<Vec<u8>>)
    ensures
        frames_of(frames) == init_sequence(),
{
    let mut frames: Vec<Vec<u8>> = Vec::new();
    frames.push(command(&[CMD_DISPLAY_OFF]));
    frames.push(command(&[CMD_MULTIPLEX_RATIO, 31]));
    frames.push(command(&[CMD_DISPLAY_OFFSET, 0]));
    frames.push(command(&[CMD_START_LINE_ZERO]));
    frames.push(command(&[CMD_SEGMENT_REMAP]));
    frames.push(command(&[CMD_SCAN_REVERSED]));
    frames.push(command(&[CMD_COM_PINS, 0x02]));
    frames.push(command(&[CMD_ADDRESSING_MODE, 0]));
    frames.push(command(&[CMD_CONTRAST, 0x7F]));
    frames.push(command(&[CMD_FOLLOW_MEMORY]));
    frames.push(command(&[CMD_NOT_INVERTED]));
    frames.push(command(&[CMD_CLOCK_DIVIDE, 0x80]));
    frames.push(command(&[CMD_CHARGE_PUMP, 0x14]));
    frames.push(command(&[CMD_DISPLAY_ON]));
    assert(frames_of(frames) =~~= init_sequence());
    frames
}

/// The frames that set the controller's addressing window. After them every
/// data byte lands at the window's first column and page and the controller
/// moves on by itself, column by column and page by page inside the window.
pub fn set_addressing_window(
    column_start: u8,
    column_end: u8,
    page_start: u8,
    page_end: u8,
) -> (frames: Vec<Vec<u8>>)
    ensures
        frames_of(frames) == window_sequence(column_start, column_end, page_start, page_end),
{
    let mut frames: Vec<Vec<u8>> = Vec::new();
    frames.push(command(&[CMD_COLUMN_WINDOW, column_start, column_end]));
    frames.push(command(&[CMD_PAGE_WINDOW, page_start, page_end]));
    assert(frames_of(frames) =~~= window_sequence(
        column_start,
        column_end,
        page_start,
        page_end,
    ));
    frames
}

/// The frames that put the window over the whole panel and the cursor at the
/// panel's origin, without touching what the panel shows.
pub fn reset_cursor() -> (frames: Vec<Vec<u8>>)
    ensures
        frames_of(frames) == window_sequence(0, 127, 0, 3),
{
    set_addressing_window(0, 127, 0, 3)
}

/// The frames that blank the whole panel and leave the controller's cursor
/// at the panel's origin. The output is switched off while the memory is
/// rewritten, and is on afterwards.
pub fn clear() -> (frames: Vec<Vec<u8>>)
    ensures
        frames_of(frames) == clear_sequence(),
{
    let ghost off = seq![command_frame(seq![CMD_DISPLAY_OFF])];
    let ghost window = window_sequence(0, 127, 0, 3);
    let mut frames: Vec<Vec<u8>> = Vec::new();
    frames.push(command(&[CMD_DISPLAY_OFF]));
    let mut window_frames = reset_cursor();
    frames.append(&mut window_frames);
    assert(frames_of(frames) =~~= off + window);
    let zeros: [u8; 16] = [0u8; 16];
    let mut i: usize = 0;
    while i < CLEAR_CHUNKS
        invariant
            i <= CLEAR_CHUNKS,
            zeros@ == Seq::new(CHUNK_LEN as nat, |k: int| 0u8),
            off == seq![command_frame(seq![CMD_DISPLAY_OFF])],
            window == window_sequence(0, 127, 0, 3),
            frames_of(frames) == off + window + Seq::new(i as nat, |k: int| dark_chunk()),
        decreases CLEAR_CHUNKS - i,
    {
        let ghost before = frames_of(frames);
        frames.push(data(&zeros));
        assert(frames_of(frames) =~~= before.push(dark_chunk()));
        assert(before.push(dark_chunk()) =~~= off + window + Seq::new(
            (i + 1) as nat,
            |k: int| dark_chunk(),
        ));
        i += 1;
    }
    let ghost before = frames_of(frames);
    frames.push(command(&[CMD_DISPLAY_ON]));
    assert(frames_of(frames) =~~= before + seq![command_frame(seq![CMD_DISPLAY_ON])]);
    frames
}

/// The frame that carries one glyph's five columns to the cursor.
pub fn write_glyph_columns(bytes: [u8; 5]) -> (frame: Vec<u8>)
    ensures
        frame@ == data_frame(bytes@),
{
    data(&bytes)
}

/// The data of two runs of frames sent one after the other is the data of
/// the first followed by the data of the second.
pub proof fn lemma_data_bytes_concat(first: Seq<Seq<u8>>, second: Seq<Seq<u8>>)
    ensures
        data_bytes(first + second) == data_bytes(first) + data_bytes(second),
    decreases second.len(),
{
    if second.len() == 0 {
        assert(first + second =~= first);
        assert(data_bytes(first) + data_bytes(second) =~= data_bytes(first));
    } else {
        lemma_data_bytes_concat(first, second.drop_last());
        assert((first + second).drop_last() =~= first + second.drop_last());
        assert((first + second).last() == second.last());
        assert(data_bytes(first + second) =~= data_bytes(first) + data_bytes(second));
    }
}

/// A run of `count` dark chunks carries `count * CHUNK_LEN` data bytes, all
/// zero.
pub proof fn lemma_dark_chunks(count: nat)
    ensures
        data_bytes(Seq::new(count, |i: int| dark_chunk())) == Seq::new(
            count * 16,
            |k: int| 0u8,
        ),
    decreases count,
{
    let chunks = Seq::new(count, |i: int| dark_chunk());
    if count > 0 {
        lemma_dark_chunks((count - 1) as nat);
        assert(chunks.drop_last() =~= Seq::new((count - 1) as nat, |i: int| dark_chunk()));
        assert(frame_data(chunks.last()) =~= Seq::new(16, |k: int| 0u8));
        assert(data_bytes(chunks) =~= Seq::new(count * 16, |k: int| 0u8));
    } else {
        assert(data_bytes(chunks) =~= Seq::new(count * 16, |k: int| 0u8));
    }
}

/// The window frames carry no pixel data.
pub proof fn lemma_window_has_no_data(
    column_start: u8,
    column_end: u8,
    page_start: u8,
    page_end: u8,
)
    ensures
        data_bytes(window_sequence(column_start, column_end, page_start, page_end))
            == Seq::<u8>::empty(),
{
    let frames = window_sequence(column_start, column_end, page_start, page_end);
    assert(frames.drop_last().drop_last() =~= Seq::<Seq<u8>>::empty());
    reveal_with_fuel(data_bytes, 3);
    assert(data_bytes(frames) =~= Seq::<u8>::empty());
}

/// Blanking the panel writes one zero byte for each column of each page,
/// `PANEL_WIDTH * PANEL_PAGES` in all, and no other data. Its first frame
/// switches the output off and its last frame switches it on.
pub proof fn lemma_clear_data()
    ensures
        data_bytes(clear_sequence()) == Seq::new(
            (PANEL_WIDTH * PANEL_PAGES) as nat,
            |k: int| 0u8,
        ),
        data_bytes(clear_sequence()).len() == 512,
        clear_sequence().first() == command_frame(seq![CMD_DISPLAY_OFF]),
        clear_sequence().last() == command_frame(seq![CMD_DISPLAY_ON]),
{
    let off = seq![command_frame(seq![CMD_DISPLAY_OFF])];
    let window = window_sequence(0, 127, 0, 3);
    let chunks = Seq::new(CLEAR_CHUNKS as nat, |i: int| dark_chunk());
    let on = seq![command_frame(seq![CMD_DISPLAY_ON])];
    lemma_data_bytes_concat(off + window + chunks, on);
    lemma_data_bytes_concat(off + window, chunks);
    lemma_data_bytes_concat(off, window);
    lemma_commands_have_no_data(off);
    lemma_commands_have_no_data(on);
    lemma_window_has_no_data(0, 127, 0, 3);
    lemma_dark_chunks(CLEAR_CHUNKS as nat);
    assert(data_bytes(clear_sequence()) =~= Seq::new(
        (PANEL_WIDTH * PANEL_PAGES) as nat,
        |k: int| 0u8,
    ));
}

/// A run of command frames carries no pixel data.
pub proof fn lemma_commands_have_no_data(frames: Seq<Seq<u8>>)
    requires
        forall|i: int| 0 <= i < frames.len() ==> is_command_frame(#[trigger] frames[i]),
    ensures
        data_bytes(frames) == Seq::<u8>::empty(),
    decreases frames.len(),
{
    if frames.len() > 0 {
        lemma_commands_have_no_data(frames.drop_last());
        assert(is_command_frame(frames[frames.len() - 1]));
        assert(data_bytes(frames) =~= Seq::<u8>::empty());
    }
}

/// Every frame of the start-up sequence is a command frame; the first one
/// switches the output off and the last one switches it on.
pub proof fn lemma_init_sequence()
    ensures
        forall|i: int|
            0 <= i < init_sequence().len() ==> is_command_frame(#[trigger] init_sequence()[i]),
        data_bytes(init_sequence()) == Seq::<u8>::empty(),
        init_sequence().first() == command_frame(seq![CMD_DISPLAY_OFF]),
        init_sequence().last() == command_frame(seq![CMD_DISPLAY_ON]),
{
    lemma_commands_have_no_data(init_sequence());
}

} // verus!
