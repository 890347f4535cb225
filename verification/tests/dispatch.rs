use rusty_panel::handler::scale;
use rusty_panel::report::{color_frame, decode_report, PanelEvent};
use rusty_panel::text::{chars_of, push_decimal, string_of, substitute};
use rusty_panel::{PanelHandler, TemplatedCommand};

fn report(bytes: &[u8]) -> [u8; 64] {
    let mut buffer = [0u8; 64];
    buffer[..bytes.len()].copy_from_slice(bytes);
    buffer
}

#[test]
fn scaling_rounds_down() {
    assert_eq!(scale(128, 100, 0), 50);
    assert_eq!(scale(1, 100, 0), 0);
    assert_eq!(scale(3, 100, 0), 1);
    assert_eq!(scale(254, 100, 0), 99);
    assert_eq!(scale(128, 5, 5), 7);
}

#[test]
fn scaling_reaches_both_ends_of_the_range() {
    for (low, high) in [(0u16, 100u16), (5, 10), (7, 7), (0, 65535), (65535, 65535)] {
        assert_eq!(scale(0, high - low, low), low as u32);
        assert_eq!(scale(255, high - low, low), high as u32);
    }
}

#[test]
fn scaling_does_not_wrap() {
    assert_eq!(scale(255, 65535, 65535), 131070);
    assert_eq!(scale(200, 65535, 1), 51401);
}

#[test]
fn template_without_argument_is_unchanged() {
    let command = TemplatedCommand::new("echo {amount}".to_string());
    assert_eq!(command.command_line(), "echo {amount}");
}

#[test]
fn every_placeholder_is_replaced() {
    let command = TemplatedCommand::new("vol {amount}% && echo {amount}".to_string());
    assert_eq!(command.command_line_with_arg(42), "vol 42% && echo 42");
    assert_eq!(command.command_line_with_arg(0), "vol 0% && echo 0");
    assert_eq!(command.command_line_with_arg(131070), "vol 131070% && echo 131070");
    assert_eq!(command.command_line_with_arg(u32::MAX), "vol 4294967295% && echo 4294967295");
}

#[test]
fn template_without_placeholder_ignores_the_argument() {
    let command = TemplatedCommand::new("true".to_string());
    assert_eq!(command.command_line_with_arg(7), "true");
    let partial = TemplatedCommand::new("{amount {amoun}t} é".to_string());
    assert_eq!(partial.command_line_with_arg(7), "{amount {amoun}t} é");
    let empty = TemplatedCommand::new(String::new());
    assert_eq!(empty.command_line_with_arg(7), "");
}

#[test]
fn placeholders_next_to_each_other() {
    let command = TemplatedCommand::new("{amount}{amount}{{amount}}".to_string());
    assert_eq!(command.command_line_with_arg(10), "1010{10}");
}

#[test]
fn substitution_matches_std_replace() {
    for (text, pattern, with) in [
        ("aaa", "aa", "b"),
        ("abcabc", "bc", ""),
        ("abc", "", "x"),
        ("ab", "abc", "x"),
        ("xyxyx", "xyx", "-"),
    ] {
        let out = substitute(&chars_of(text), &chars_of(pattern), &chars_of(with));
        let expected = if pattern.is_empty() { text.to_string() } else { text.replace(pattern, with) };
        assert_eq!(string_of(&out), expected);
    }
}

#[test]
fn text_round_trips_through_characters() {
    let chars = chars_of("a{é}\u{1F600}");
    assert_eq!(chars, vec!['a', '{', 'é', '}', '\u{1F600}']);
    assert_eq!(string_of(&chars), "a{é}\u{1F600}");
    assert_eq!(string_of(&Vec::new()), "");
}

#[test]
fn decimal_text_matches_std() {
    for n in [0u32, 9, 10, 99, 100, 255, 65535, 65536, 1000000, u32::MAX] {
        let mut out = vec!['='];
        push_decimal(&mut out, n);
        assert_eq!(string_of(&out), format!("={}", n));
    }
}

#[test]
fn unbound_controls_run_nothing() {
    let handler = PanelHandler::new(4);
    assert_eq!(handler.controls(), 4);
    for control in 0..6 {
        assert_eq!(handler.click(control), None);
        assert_eq!(handler.rotate(control, 200), None);
    }
    assert_eq!(handler.click(usize::MAX), None);
    let none = PanelHandler::new(0);
    assert_eq!(none.click(0), None);
    assert_eq!(none.rotate(0, 1), None);
}

#[test]
fn registration_out_of_range_is_ignored() {
    let mut handler = PanelHandler::new(4);
    handler.register_click_command(4, "click".to_string());
    handler.register_rotate_command(4, "turn {amount}".to_string(), 100, 0);
    handler.register_click_command(usize::MAX, "click".to_string());
    assert_eq!(handler.controls(), 4);
    for control in 0..6 {
        assert_eq!(handler.click(control), None);
        assert_eq!(handler.rotate(control, 200), None);
    }
}

#[test]
fn click_and_rotate_are_bound_separately() {
    let mut handler = PanelHandler::new(4);
    handler.register_click_command(2, "mute".to_string());
    assert_eq!(handler.click(2), Some("mute".to_string()));
    assert_eq!(handler.rotate(2, 10), None);
    handler.register_rotate_command(3, "vol {amount}".to_string(), 5, 5);
    assert_eq!(handler.rotate(3, 128), Some("vol 7".to_string()));
    assert_eq!(handler.click(3), None);
    assert_eq!(handler.click(2), Some("mute".to_string()));
}

#[test]
fn later_registration_replaces_the_earlier_one() {
    let mut handler = PanelHandler::new(2);
    handler.register_click_command(1, "first".to_string());
    handler.register_click_command(1, "second".to_string());
    assert_eq!(handler.click(1), Some("second".to_string()));
    handler.register_rotate_command(1, "a {amount}".to_string(), 100, 0);
    handler.register_rotate_command(1, "b {amount}".to_string(), 10, 1);
    assert_eq!(handler.rotate(1, 255), Some("b 11".to_string()));
}

#[test]
fn reports_decode_to_events() {
    assert_eq!(decode_report(&report(&[1, 1, 0x80]), 64), PanelEvent::Rotate { control: 1, amount: 0x80 });
    assert_eq!(decode_report(&report(&[2, 0, 1]), 64), PanelEvent::Press { control: 0 });
    assert_eq!(decode_report(&report(&[2, 3, 0]), 64), PanelEvent::Release { control: 3 });
    assert_eq!(decode_report(&report(&[2, 3, 2]), 64), PanelEvent::Ignored);
    assert_eq!(decode_report(&report(&[0, 0, 1]), 64), PanelEvent::Ignored);
    assert_eq!(decode_report(&report(&[3, 0, 1]), 64), PanelEvent::Ignored);
    assert_eq!(decode_report(&report(&[2, 0, 1]), 3), PanelEvent::Press { control: 0 });
}

#[test]
fn short_reports_are_ignored() {
    for filled in 0..3 {
        assert_eq!(decode_report(&report(&[2, 0, 1]), filled), PanelEvent::Ignored);
        assert_eq!(decode_report(&report(&[1, 0, 9]), filled), PanelEvent::Ignored);
    }
    assert_eq!(decode_report(&[2, 0], 3), PanelEvent::Ignored);
    assert_eq!(decode_report(&[], 0), PanelEvent::Ignored);
}

#[test]
fn press_report_runs_the_bound_click_command() {
    let mut handler = PanelHandler::new(4);
    handler.register_click_command(0, "pressed".to_string());
    assert_eq!(handler.handle_report(&report(&[0x02, 0x00, 0x01]), 64), Some("pressed".to_string()));
}

#[test]
fn release_report_runs_nothing() {
    let mut handler = PanelHandler::new(4);
    handler.register_click_command(0, "pressed".to_string());
    handler.register_rotate_command(0, "turned {amount}".to_string(), 100, 0);
    assert_eq!(handler.handle_report(&report(&[0x02, 0x00, 0x00]), 64), None);
}

#[test]
fn rotate_report_runs_the_command_with_the_scaled_amount() {
    let mut handler = PanelHandler::new(4);
    handler.register_rotate_command(1, "turned {amount}".to_string(), 100, 0);
    assert_eq!(handler.handle_report(&report(&[0x01, 0x01, 0x80]), 64), Some("turned 50".to_string()));
    assert_eq!(handler.handle_report(&report(&[0x01, 0x00, 0x80]), 64), None);
}

#[test]
fn short_report_runs_nothing() {
    let mut handler = PanelHandler::new(4);
    handler.register_click_command(0, "pressed".to_string());
    handler.register_rotate_command(0, "turned {amount}".to_string(), 100, 0);
    for filled in 0..3 {
        assert_eq!(handler.handle_report(&report(&[0x02, 0x00, 0x01]), filled), None);
        assert_eq!(handler.handle_report(&report(&[0x01, 0x00, 0x80]), filled), None);
    }
}

#[test]
fn dispatch_follows_the_event() {
    let mut handler = PanelHandler::new(4);
    handler.register_click_command(0, "pressed".to_string());
    handler.register_rotate_command(0, "turned {amount}".to_string(), 10, 0);
    assert_eq!(handler.dispatch(PanelEvent::Press { control: 0 }), Some("pressed".to_string()));
    assert_eq!(handler.dispatch(PanelEvent::Release { control: 0 }), None);
    assert_eq!(handler.dispatch(PanelEvent::Ignored), None);
    assert_eq!(
        handler.dispatch(PanelEvent::Rotate { control: 0, amount: 255 }),
        Some("turned 10".to_string())
    );
    assert_eq!(handler.dispatch(PanelEvent::Press { control: 200 }), None);
}

#[test]
fn color_frame_has_six_bytes() {
    assert_eq!(color_frame(0x06, 0x05, (1, 2, 3)), [0x06, 0x04, 0x05, 1, 2, 3]);
}
