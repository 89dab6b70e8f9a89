use my_rpn_calc::display::{
    clear, initialize, reset_cursor, set_addressing_window, write_glyph_columns, CHUNK_LEN,
    CLEAR_CHUNKS, COMMAND_PREFIX, DATA_PREFIX, DEVICE_ADDRESS, PANEL_HEIGHT, PANEL_PAGES,
    PANEL_WIDTH,
};

#[test]
fn display_constants() {
    assert_eq!(DEVICE_ADDRESS, 0x3C);
    assert_eq!(COMMAND_PREFIX, 0x00);
    assert_eq!(DATA_PREFIX, 0x40);
    assert_eq!(PANEL_WIDTH, 128);
    assert_eq!(PANEL_HEIGHT, 32);
    assert_eq!(PANEL_PAGES, (PANEL_HEIGHT + 7) / 8);
    assert_eq!(CHUNK_LEN * CLEAR_CHUNKS, PANEL_WIDTH * PANEL_PAGES);
}

#[test]
fn initialize_sends_the_start_up_sequence() {
    let expected: Vec<Vec<u8>> = vec![
        vec![0x00, 0xAE],
        vec![0x00, 0xA8, 31],
        vec![0x00, 0xD3, 0],
        vec![0x00, 0x40],
        vec![0x00, 0xA1],
        vec![0x00, 0xC8],
        vec![0x00, 0xDA, 0x02],
        vec![0x00, 0x20, 0x00],
        vec![0x00, 0x81, 0x7F],
        vec![0x00, 0xA4],
        vec![0x00, 0xA6],
        vec![0x00, 0xD5, 0x80],
        vec![0x00, 0x8D, 0x14],
        vec![0x00, 0xAF],
    ];
    assert_eq!(initialize(), expected);
}

#[test]
fn initialize_switches_output_off_first_and_on_last() {
    let frames = initialize();
    assert_eq!(frames.first().unwrap(), &vec![0x00, 0xAE]);
    assert_eq!(frames.last().unwrap(), &vec![0x00, 0xAF]);
    for frame in frames.iter() {
        assert_eq!(frame[0], COMMAND_PREFIX);
    }
}

#[test]
fn addressing_window_is_two_command_frames() {
    assert_eq!(
        set_addressing_window(0, 127, 0, 3),
        vec![vec![0x00, 0x21, 0, 127], vec![0x00, 0x22, 0, 3]]
    );
    assert_eq!(
        set_addressing_window(5, 9, 1, 2),
        vec![vec![0x00, 0x21, 5, 9], vec![0x00, 0x22, 1, 2]]
    );
    assert_eq!(
        set_addressing_window(255, 0, 255, 0),
        vec![vec![0x00, 0x21, 255, 0], vec![0x00, 0x22, 255, 0]]
    );
}

#[test]
fn reset_cursor_sets_the_window_over_the_panel() {
    assert_eq!(reset_cursor(), set_addressing_window(0, 127, 0, 3));
}

#[test]
fn clear_sets_the_window_then_sends_dark_chunks() {
    let frames = clear();
    assert_eq!(frames.len(), 1 + 2 + 32 + 1);
    assert_eq!(frames[1], vec![0x00, 0x21, 0, 127]);
    assert_eq!(frames[2], vec![0x00, 0x22, 0, 3]);
    let mut chunk = vec![0x40u8];
    chunk.extend([0u8; 16]);
    for frame in &frames[3..35] {
        assert_eq!(frame, &chunk);
    }
}

#[test]
fn clear_switches_output_off_first_and_on_last() {
    let frames = clear();
    assert_eq!(frames.first().unwrap(), &vec![0x00, 0xAE]);
    assert_eq!(frames.last().unwrap(), &vec![0x00, 0xAF]);
    assert_eq!(frames[0], vec![0x00, 0xAE]);
    assert_eq!(frames[35], vec![0x00, 0xAF]);
}

#[test]
fn clear_writes_one_zero_byte_for_each_column_of_each_page() {
    let mut data: Vec<u8> = Vec::new();
    for frame in clear() {
        if frame[0] == DATA_PREFIX {
            data.extend(&frame[1..]);
        }
    }
    assert_eq!(data.len(), 128 * 4);
    assert!(data.iter().all(|byte| *byte == 0));
}

#[test]
fn clear_frames_fit_the_bus() {
    for frame in clear() {
        assert!(frame.len() <= 1 + CHUNK_LEN);
    }
}

#[test]
fn glyph_columns_go_out_as_one_data_frame() {
    assert_eq!(
        write_glyph_columns([0x3E, 0x71, 0x49, 0x47, 0x3E]),
        vec![0x40, 0x3E, 0x71, 0x49, 0x47, 0x3E]
    );
    assert_eq!(write_glyph_columns([0; 5]), vec![0x40, 0, 0, 0, 0, 0]);
    assert_eq!(
        write_glyph_columns([0xFF; 5]),
        vec![0x40, 0xFF, 0xFF, 0xFF, 0xFF, 0xFF]
    );
}
