use my_rpn_calc::display::clear;
use my_rpn_calc::font::make_font;
use my_rpn_calc::glyph::Glyph;
use my_rpn_calc::render::Renderer;

fn data_of(frames: &[Vec<u8>]) -> Vec<u8> {
    let mut data = Vec::new();
    for frame in frames {
        if frame[0] == 0x40 {
            data.extend(&frame[1..]);
        }
    }
    data
}

#[test]
fn supported_characters_draw_their_stored_glyph() {
    let renderer = Renderer::new();
    let font = make_font();
    let supported = "0123456789ABCDEFGHIJKLMNOPQRSTUVWXYZ!?.*#";
    for (index, c) in supported.chars().enumerate() {
        let frames = renderer.render(&c.to_string());
        assert_eq!(frames.len(), 1);
        assert_eq!(frames[0][0], 0x40);
        assert_eq!(data_of(&frames), font[index].to_vec(), "{:?}", c);
    }
}

#[test]
fn letters_draw_the_same_in_either_case() {
    let renderer = Renderer::new();
    let font = make_font();
    for (position, c) in ('a'..='z').enumerate() {
        let small = renderer.render(&c.to_string());
        let capital = renderer.render(&c.to_ascii_uppercase().to_string());
        assert_eq!(small, capital);
        assert_eq!(data_of(&small), font[10 + position].to_vec());
    }
}

#[test]
fn unsupported_characters_draw_a_solid_block() {
    let renderer = Renderer::new();
    let font = make_font();
    for c in ['-', '+', ':', '@', '~', '\u{e9}', '\u{130}', '\u{ff11}'] {
        let frames = renderer.render(&c.to_string());
        let data = data_of(&frames);
        assert_eq!(data, vec![0xFF; 5], "{:?}", c);
        assert!(font.iter().all(|glyph| glyph.to_vec() != data));
    }
}

#[test]
fn space_draws_five_zero_bytes() {
    let renderer = Renderer::new();
    let frames = renderer.render(" ");
    assert_eq!(frames, vec![vec![0x40, 0, 0, 0, 0, 0]]);
    assert_eq!(data_of(&frames), vec![0u8; 5]);
}

#[test]
fn empty_text_draws_nothing() {
    assert_eq!(Renderer::new().render(""), Vec::<Vec<u8>>::new());
}

#[test]
fn text_draws_one_frame_for_each_character_in_order() {
    let renderer = Renderer::new();
    let frames = renderer.render("a 7?~");
    assert_eq!(
        frames,
        vec![
            vec![0x40, 0x7E, 0x09, 0x09, 0x09, 0x7E],
            vec![0x40, 0x00, 0x00, 0x00, 0x00, 0x00],
            vec![0x40, 0x07, 0x01, 0x61, 0x19, 0x07],
            vec![0x40, 0x06, 0x01, 0x51, 0x09, 0x06],
            vec![0x40, 0xFF, 0xFF, 0xFF, 0xFF, 0xFF],
        ]
    );
}

#[test]
fn glyph_columns_of_each_kind() {
    let renderer = Renderer::new();
    assert_eq!(renderer.glyph_columns(Glyph::Digit(1)), [0x44, 0x42, 0x7F, 0x40, 0x40]);
    assert_eq!(renderer.glyph_columns(Glyph::Letter(1)), [0x7F, 0x49, 0x49, 0x49, 0x36]);
    assert_eq!(renderer.glyph_columns(Glyph::Symbol(3)), [0x22, 0x14, 0x7F, 0x14, 0x22]);
    assert_eq!(renderer.glyph_columns(Glyph::Blank), [0x00; 5]);
    assert_eq!(renderer.glyph_columns(Glyph::Unknown), [0xFF; 5]);
}

#[test]
fn glyph_with_a_number_out_of_range_draws_a_solid_block() {
    let renderer = Renderer::new();
    assert_eq!(renderer.glyph_columns(Glyph::Digit(10)), [0xFF; 5]);
    assert_eq!(renderer.glyph_columns(Glyph::Letter(30)), [0xFF; 5]);
    assert_eq!(renderer.glyph_columns(Glyph::Symbol(200)), [0xFF; 5]);
}

#[test]
fn screen_blanks_the_panel_then_draws() {
    let renderer = Renderer::new();
    let mut expected = clear();
    expected.extend(renderer.render("42"));
    assert_eq!(renderer.screen("42"), expected);
    assert_eq!(renderer.screen("42").len(), 36 + 2);
}

#[test]
fn fault_screen_shows_the_fault_message() {
    let renderer = Renderer::new();
    assert_eq!(renderer.fault_screen(), renderer.screen("panic"));
    let frames = renderer.fault_screen();
    assert_eq!(frames.len(), 36 + 5);
    assert_eq!(frames[0], vec![0x00, 0xAE]);
    assert_eq!(frames[35], vec![0x00, 0xAF]);
    assert_eq!(frames[36], vec![0x40, 0x7F, 0x09, 0x09, 0x09, 0x06]);
    assert_eq!(frames[40], vec![0x40, 0x3E, 0x41, 0x41, 0x41, 0x22]);
}
