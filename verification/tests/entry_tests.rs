use my_rpn_calc::entry::{Accumulator, CLEAR_KEY};
use my_rpn_calc::render::Renderer;

fn press_all(accumulator: &mut Accumulator, keys: &str) {
    for key in keys.chars() {
        assert!(accumulator.accepts(key));
        accumulator.press(key);
    }
}

#[test]
fn accumulator_starts_at_zero() {
    let accumulator = Accumulator::new();
    assert_eq!(accumulator.value(), 0);
    assert_eq!(accumulator.text(), "0");
}

#[test]
fn clear_key_is_e() {
    assert_eq!(CLEAR_KEY, 'e');
}

#[test]
fn digits_append_in_base_ten() {
    let mut accumulator = Accumulator::new();
    press_all(&mut accumulator, "123");
    assert_eq!(accumulator.value(), 123);
    assert_eq!(accumulator.text(), "123");
}

#[test]
fn one_digit_multiplies_by_ten_and_adds() {
    let mut accumulator = Accumulator::with_value(57);
    accumulator.press('8');
    assert_eq!(accumulator.value(), 578);
    let mut negative = Accumulator::with_value(-5);
    negative.press('3');
    assert_eq!(negative.value(), -47);
}

#[test]
fn leading_zeros_do_not_count() {
    let mut accumulator = Accumulator::new();
    press_all(&mut accumulator, "0007");
    assert_eq!(accumulator.value(), 7);
    assert_eq!(accumulator.text(), "7");
}

#[test]
fn clear_key_resets_to_zero() {
    let mut accumulator = Accumulator::new();
    press_all(&mut accumulator, "987");
    accumulator.press(CLEAR_KEY);
    assert_eq!(accumulator.value(), 0);
    press_all(&mut accumulator, "65");
    assert_eq!(accumulator.value(), 65);
}

#[test]
fn clear_key_in_the_middle_drops_what_came_before() {
    let mut with_clear = Accumulator::new();
    press_all(&mut with_clear, "12e34");
    let mut after_only = Accumulator::new();
    press_all(&mut after_only, "34");
    assert_eq!(with_clear.value(), 34);
    assert_eq!(with_clear.value(), after_only.value());
}

#[test]
fn keys_that_are_no_digits_are_always_accepted() {
    for value in [i64::MAX, i64::MIN, 0] {
        let mut accumulator = Accumulator::with_value(value);
        assert!(accumulator.accepts('.'));
        accumulator.press('.');
        assert_eq!(accumulator.value(), value);
        assert!(accumulator.accepts('e'));
        accumulator.press('e');
        assert_eq!(accumulator.value(), 0);
    }
}

#[test]
fn other_keys_leave_the_number_alone() {
    let mut accumulator = Accumulator::new();
    press_all(&mut accumulator, "42");
    for key in ['.', 'p', 'm', 'x', 'd', 'E', ' ', '\u{663}'] {
        assert!(accumulator.accepts(key));
        accumulator.press(key);
        assert_eq!(accumulator.value(), 42);
    }
}

#[test]
fn largest_number_is_reached_and_not_passed() {
    let mut accumulator = Accumulator::new();
    press_all(&mut accumulator, "922337203685477580");
    assert!(accumulator.accepts('7'));
    assert!(!accumulator.accepts('8'));
    assert!(!accumulator.accepts('9'));
    accumulator.press('7');
    assert_eq!(accumulator.value(), i64::MAX);
    assert!(!accumulator.accepts('0'));
    assert!(accumulator.accepts(CLEAR_KEY));
    assert!(accumulator.accepts('x'));
}

#[test]
fn smallest_number_is_reached_and_not_passed() {
    let accumulator = Accumulator::with_value(-922337203685477581);
    assert!(!accumulator.accepts('0'));
    assert!(!accumulator.accepts('1'));
    assert!(accumulator.accepts('2'));
    assert!(accumulator.accepts('9'));
    let mut accumulator = accumulator;
    accumulator.press('2');
    assert_eq!(accumulator.value(), i64::MIN);
}

#[test]
fn text_is_the_number_in_decimal() {
    assert_eq!(Accumulator::with_value(0).text(), "0");
    assert_eq!(Accumulator::with_value(9).text(), "9");
    assert_eq!(Accumulator::with_value(10).text(), "10");
    assert_eq!(Accumulator::with_value(1234567890).text(), "1234567890");
    assert_eq!(Accumulator::with_value(i64::MAX).text(), "9223372036854775807");
}

#[test]
fn text_of_a_negative_number_has_a_minus_sign() {
    assert_eq!(Accumulator::with_value(-1).text(), "-1");
    assert_eq!(Accumulator::with_value(-120).text(), "-120");
    assert_eq!(Accumulator::with_value(i64::MIN).text(), "-9223372036854775808");
}

#[test]
fn text_agrees_with_the_standard_formatting() {
    for value in [0i64, 7, 42, 100, 999, 1000, -1, -99, 65536, -4294967296] {
        assert_eq!(Accumulator::with_value(value).text(), format!("{}", value));
    }
}

#[test]
fn screen_shows_the_number() {
    let renderer = Renderer::new();
    let accumulator = Accumulator::with_value(42);
    assert_eq!(accumulator.screen(&renderer), renderer.screen("42"));
    let frames = accumulator.screen(&renderer);
    assert_eq!(frames.len(), 36 + 2);
    assert_eq!(frames[36], vec![0x40, 0x18, 0x14, 0x12, 0x7F, 0x10]);
    assert_eq!(frames[37], vec![0x40, 0x42, 0x61, 0x51, 0x49, 0x46]);
}

#[test]
fn screen_of_a_negative_number_marks_the_sign_as_unknown() {
    let renderer = Renderer::new();
    let frames = Accumulator::with_value(-7).screen(&renderer);
    assert_eq!(frames.len(), 36 + 2);
    assert_eq!(frames[36], vec![0x40, 0xFF, 0xFF, 0xFF, 0xFF, 0xFF]);
    assert_eq!(frames[37], vec![0x40, 0x07, 0x01, 0x61, 0x19, 0x07]);
}

#[test]
fn handle_key_takes_the_key_and_shows_the_number() {
    let renderer = Renderer::new();
    let mut accumulator = Accumulator::with_value(4);
    let frames = accumulator.handle_key('2', &renderer);
    assert_eq!(accumulator.value(), 42);
    assert_eq!(frames, renderer.screen("42"));
    let frames = accumulator.handle_key(CLEAR_KEY, &renderer);
    assert_eq!(accumulator.value(), 0);
    assert_eq!(frames, renderer.screen("0"));
}
