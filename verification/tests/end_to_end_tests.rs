use my_rpn_calc::display::{initialize, reset_cursor};
use my_rpn_calc::entry::Accumulator;
use my_rpn_calc::font::make_font;
use my_rpn_calc::keypad::{scan_once, wait_for_keypress};
use my_rpn_calc::render::Renderer;

/// A stand-in for the controller: the window, the cursor and the memory.
struct Panel {
    column_start: usize,
    column_end: usize,
    page_start: usize,
    page_end: usize,
    column: usize,
    page: usize,
    memory: [[u8; 128]; 8],
    lit: bool,
}

fn noisy_panel() -> Panel {
    Panel {
        column_start: 17,
        column_end: 90,
        page_start: 1,
        page_end: 2,
        column: 33,
        page: 2,
        memory: [[0xA5; 128]; 8],
        lit: false,
    }
}

fn send(panel: &mut Panel, frames: &[Vec<u8>]) {
    for frame in frames {
        if frame[0] == 0x40 {
            for byte in &frame[1..] {
                panel.memory[panel.page][panel.column] = *byte;
                if panel.column == panel.column_end {
                    panel.column = panel.column_start;
                    if panel.page == panel.page_end {
                        panel.page = panel.page_start;
                    } else {
                        panel.page += 1;
                    }
                } else {
                    panel.column += 1;
                }
            }
        } else if frame.len() == 4 && frame[1] == 0x21 {
            panel.column_start = frame[2] as usize;
            panel.column_end = frame[3] as usize;
            panel.column = frame[2] as usize;
        } else if frame.len() == 4 && frame[1] == 0x22 {
            panel.page_start = frame[2] as usize;
            panel.page_end = frame[3] as usize;
            panel.page = frame[2] as usize;
        } else if frame.len() == 2 && frame[1] == 0xAF {
            panel.lit = true;
        } else if frame.len() == 2 && frame[1] == 0xAE {
            panel.lit = false;
        }
    }
}

/// Whether the panel shows `text` from the origin on and is dark elsewhere.
fn shows(panel: &Panel, text: &str) -> bool {
    let font = make_font();
    let mut expected = [[0u8; 128]; 4];
    for (i, c) in text.chars().enumerate() {
        let glyph = font[c.to_digit(36).unwrap() as usize];
        for j in 0..5 {
            let k = 5 * i + j;
            expected[k / 128][k % 128] = glyph[j];
        }
    }
    (0..4).all(|page| panel.memory[page] == expected[page])
}

/// The four samples of one scan while the key at `row` and `column` is held.
fn held(row: usize, column: usize) -> [u8; 4] {
    let mut samples = [0u8; 4];
    samples[column] = 1 << row;
    samples
}

#[test]
fn clear_leaves_the_output_on() {
    let mut panel = noisy_panel();
    assert!(!panel.lit);
    send(&mut panel, &my_rpn_calc::display::clear());
    assert!(panel.lit);
}

#[test]
fn fault_screen_shows_its_message_on_a_panel_that_was_never_lit() {
    let renderer = Renderer::new();
    let mut panel = noisy_panel();
    send(&mut panel, &renderer.fault_screen());
    assert!(panel.lit);
    assert!(shows(&panel, "panic"));
}

#[test]
fn clear_leaves_the_panel_dark_with_the_cursor_at_the_origin() {
    let mut panel = noisy_panel();
    send(&mut panel, &my_rpn_calc::display::clear());
    assert_eq!((panel.column, panel.page), (0, 0));
    assert_eq!((panel.column_start, panel.column_end), (0, 127));
    assert_eq!((panel.page_start, panel.page_end), (0, 3));
    assert!(shows(&panel, ""));
}

#[test]
fn render_after_clear_begins_at_the_origin() {
    let renderer = Renderer::new();
    let mut panel = noisy_panel();
    send(&mut panel, &my_rpn_calc::display::clear());
    send(&mut panel, &renderer.render("7"));
    assert_eq!(panel.memory[0][0..5], [0x07, 0x01, 0x61, 0x19, 0x07]);
    assert_eq!((panel.column, panel.page), (5, 0));
    assert!(shows(&panel, "7"));
}

#[test]
fn reset_cursor_moves_the_cursor_and_keeps_the_picture() {
    let mut panel = noisy_panel();
    send(&mut panel, &reset_cursor());
    assert_eq!((panel.column, panel.page), (0, 0));
    assert_eq!(panel.memory[0], [0xA5; 128]);
    assert_eq!(panel.memory[3], [0xA5; 128]);
}

#[test]
fn start_up_lights_the_panel() {
    let mut panel = noisy_panel();
    send(&mut panel, &initialize());
    assert!(panel.lit);
    assert_eq!(panel.memory[0], [0xA5; 128]);
}

#[test]
fn text_longer_than_a_row_goes_on_in_the_next_page() {
    let renderer = Renderer::new();
    let mut panel = noisy_panel();
    let text = "0123456789ABCDEFGHIJKLMNOPQRSTUVWXYZ";
    send(&mut panel, &renderer.screen(text));
    assert!(shows(&panel, text));
    assert_eq!((panel.column, panel.page), (180 - 128, 1));
}

#[test]
fn a_new_screen_leaves_nothing_of_the_old_one() {
    let renderer = Renderer::new();
    let mut panel = noisy_panel();
    send(&mut panel, &renderer.screen("123456"));
    send(&mut panel, &renderer.screen("9"));
    assert!(shows(&panel, "9"));
}

#[test]
fn keys_four_two_clear_nine_show_4_42_0_9() {
    let renderer = Renderer::new();
    let mut accumulator = Accumulator::new();
    let mut panel = noisy_panel();
    send(&mut panel, &initialize());

    // '4' is row 2 of column 0, '2' row 1 of column 1, the clear key row 0
    // of column 2, '9' row 3 of column 2.
    let idle = [0u8; 4];
    let scans: Vec<[u8; 4]> = vec![
        idle,
        held(2, 0),
        held(2, 0),
        idle,
        idle,
        held(1, 1),
        idle,
        held(0, 2),
        held(0, 2),
        held(0, 2),
        idle,
        held(3, 2),
        idle,
    ];
    let results: Vec<Option<char>> = scans.iter().map(|samples| scan_once(*samples)).collect();

    let mut keys: Vec<char> = Vec::new();
    let mut shown: Vec<String> = Vec::new();
    let mut rest: &[Option<char>] = &results;
    while let Some((key, used)) = wait_for_keypress(rest) {
        rest = &rest[used..];
        keys.push(key);
        assert!(accumulator.accepts(key));
        let frames = accumulator.handle_key(key, &renderer);
        send(&mut panel, &frames);
        assert!(shows(&panel, &accumulator.text()));
        shown.push(accumulator.text());
    }

    assert_eq!(keys, vec!['4', '2', 'e', '9']);
    assert_eq!(shown, vec!["4", "42", "0", "9"]);
    assert_eq!(accumulator.value(), 9);
    assert!(shows(&panel, "9"));
    assert!(panel.lit);
}
