use term_core::attr::{Attributes, Color};
use term_core::event::TerminalEvent;
use term_core::interp::Parser;

fn attrs() -> Attributes {
    Attributes::default()
}

#[test]
fn plain_text_prints_in_order() {
    let mut p = Parser::new();
    p.feed(b"AB");
    assert_eq!(
        p.events,
        vec![
            TerminalEvent::Print { ch: 'A', attrs: attrs() },
            TerminalEvent::Print { ch: 'B', attrs: attrs() },
        ]
    );
}

#[test]
fn c0_controls_dispatch() {
    let mut p = Parser::new();
    p.feed(b"\x0a\x0d\x08\x09\x07");
    assert_eq!(
        p.events,
        vec![
            TerminalEvent::Linefeed,
            TerminalEvent::CarriageReturn,
            TerminalEvent::Backspace,
            TerminalEvent::Tab,
            TerminalEvent::Bell,
        ]
    );
}

#[test]
fn unknown_c0_bytes_are_dropped() {
    let mut p = Parser::new();
    p.feed(b"\x01A\x02\x1f\x7fB");
    assert_eq!(
        p.events,
        vec![
            TerminalEvent::Print { ch: 'A', attrs: attrs() },
            TerminalEvent::Print { ch: 'B', attrs: attrs() },
        ]
    );
}

#[test]
fn text_and_controls_keep_order() {
    let mut p = Parser::new();
    p.feed(b"A\nB");
    assert_eq!(
        p.events,
        vec![
            TerminalEvent::Print { ch: 'A', attrs: attrs() },
            TerminalEvent::Linefeed,
            TerminalEvent::Print { ch: 'B', attrs: attrs() },
        ]
    );
}

#[test]
fn chunked_feed_equals_one_feed() {
    let mut split = Parser::new();
    split.feed(b"AB");
    split.feed(b"CD");
    let mut whole = Parser::new();
    whole.feed(b"ABCD");
    assert_eq!(split.events, whole.events);
}

#[test]
fn escape_sequence_straddles_chunks() {
    let mut split = Parser::new();
    split.feed(b"\x1b[1;3");
    split.feed(b"1mX");
    let mut whole = Parser::new();
    whole.feed(b"\x1b[1;31mX");
    assert_eq!(split.events, whole.events);
    assert_eq!(split.current_attributes(), whole.current_attributes());
}

#[test]
fn scenario_sgr_bold_red_print() {
    let mut p = Parser::new();
    p.feed(b"\x1b[1;31mX");
    let want = Attributes { bold: true, foreground: Color::Red, ..attrs() };
    assert_eq!(p.current_attributes(), want);
    assert_eq!(p.events, vec![TerminalEvent::Print { ch: 'X', attrs: want }]);
}

#[test]
fn sgr_codes_cover_styles_and_colors() {
    let mut p = Parser::new();
    p.feed(b"\x1b[1;3;4;7;33;44m");
    assert_eq!(
        p.current_attributes(),
        Attributes {
            foreground: Color::Yellow,
            background: Color::Blue,
            bold: true,
            italic: true,
            underline: true,
            inverse: true,
        }
    );
    p.feed(b"\x1b[22;23;24;27m");
    assert_eq!(
        p.current_attributes(),
        Attributes { foreground: Color::Yellow, background: Color::Blue, ..attrs() }
    );
    p.feed(b"\x1b[38;49m");
    assert_eq!(p.current_attributes(), attrs());
}

#[test]
fn sgr_bright_and_rgb_colors() {
    let mut p = Parser::new();
    p.feed(b"\x1b[97m");
    assert_eq!(p.current_attributes().foreground, Color::BrightWhite);
    p.feed(b"\x1b[90m");
    assert_eq!(p.current_attributes().foreground, Color::BrightBlack);
    p.feed(b"\x1b[38;2;1;2;3m");
    assert_eq!(p.current_attributes().foreground, Color::Rgb(1, 2, 3));
    p.feed(b"\x1b[48;2;250;100;0m");
    assert_eq!(p.current_attributes().background, Color::Rgb(250, 100, 0));
    p.feed(b"\x1b[48;5;16m");
    assert_eq!(p.current_attributes().background, Color::Indexed(16));
}

#[test]
fn sgr_later_code_overrides_earlier() {
    let mut p = Parser::new();
    p.feed(b"\x1b[31;32m");
    assert_eq!(p.current_attributes().foreground, Color::Green);
}

#[test]
fn sgr_unknown_codes_are_ignored() {
    let mut p = Parser::new();
    p.feed(b"\x1b[1m\x1b[99m\x1b[2m");
    assert_eq!(p.current_attributes(), Attributes { bold: true, ..attrs() });
}

#[test]
fn scenario_palette_foreground_on_print() {
    let mut p = Parser::new();
    p.feed(b"\x1b[38;5;200m");
    p.feed(b"A");
    let want = Attributes { foreground: Color::Indexed(200), ..attrs() };
    assert_eq!(p.events, vec![TerminalEvent::Print { ch: 'A', attrs: want }]);
}

#[test]
fn sgr_colon_subparameters_select_palette() {
    let mut p = Parser::new();
    p.feed(b"\x1b[38:5:99m");
    assert_eq!(p.current_attributes().foreground, Color::Indexed(99));
}

#[test]
fn full_reset_restores_defaults() {
    let mut p = Parser::new();
    p.feed(b"\x1b[1;31;44m");
    p.feed(b"\x1b[0m");
    assert_eq!(p.current_attributes(), attrs());
}

#[test]
fn empty_sgr_is_full_reset() {
    let mut p = Parser::new();
    p.feed(b"\x1b[4;35m");
    p.feed(b"\x1b[m");
    assert_eq!(p.current_attributes(), attrs());
}

#[test]
fn full_reset_applies_from_mid_sequence_state() {
    // Even with an OSC sequence left unterminated, a reset reaches the
    // attributes: the ESC abandons the open sequence.
    let mut p = Parser::new();
    p.feed(b"\x1b[1m\x1b]0;title");
    p.feed(b"\x1b[0m");
    assert_eq!(p.current_attributes(), attrs());
}

#[test]
fn sgr_change_does_not_alter_past_events() {
    let mut p = Parser::new();
    p.feed(b"\x1b[31mX\x1b[32mY");
    let red = Attributes { foreground: Color::Red, ..attrs() };
    let green = Attributes { foreground: Color::Green, ..attrs() };
    assert_eq!(
        p.events,
        vec![
            TerminalEvent::Print { ch: 'X', attrs: red },
            TerminalEvent::Print { ch: 'Y', attrs: green },
        ]
    );
}

#[test]
fn cursor_position_defaults_to_home() {
    let mut p = Parser::new();
    p.feed(b"\x1b[H");
    assert_eq!(p.events, vec![TerminalEvent::CursorPosition { row: 1, col: 1 }]);
}

#[test]
fn cursor_position_takes_both_parameters() {
    let mut p = Parser::new();
    p.feed(b"\x1b[5;10H\x1b[2;3f");
    assert_eq!(
        p.events,
        vec![
            TerminalEvent::CursorPosition { row: 5, col: 10 },
            TerminalEvent::CursorPosition { row: 2, col: 3 },
        ]
    );
}

#[test]
fn relative_moves_default_to_one() {
    let mut p = Parser::new();
    p.feed(b"\x1b[A\x1b[B\x1b[C\x1b[D");
    assert_eq!(
        p.events,
        vec![
            TerminalEvent::CursorUp(1),
            TerminalEvent::CursorDown(1),
            TerminalEvent::CursorForward(1),
            TerminalEvent::CursorBack(1),
        ]
    );
}

#[test]
fn relative_moves_carry_counts() {
    let mut p = Parser::new();
    p.feed(b"\x1b[3A\x1b[12C");
    assert_eq!(p.events, vec![TerminalEvent::CursorUp(3), TerminalEvent::CursorForward(12)]);
}

#[test]
fn erase_events_default_to_mode_zero() {
    let mut p = Parser::new();
    p.feed(b"\x1b[J\x1b[2J\x1b[K\x1b[1K");
    assert_eq!(
        p.events,
        vec![
            TerminalEvent::EraseDisplay(0),
            TerminalEvent::EraseDisplay(2),
            TerminalEvent::EraseLine(0),
            TerminalEvent::EraseLine(1),
        ]
    );
}

#[test]
fn scenario_private_mode_set() {
    let mut p = Parser::new();
    p.feed(b"\x1b[?25h");
    assert_eq!(p.events, vec![TerminalEvent::SetMode(vec![25])]);
}

#[test]
fn mode_events_flatten_all_values() {
    let mut p = Parser::new();
    p.feed(b"\x1b[?1000;1006h\x1b[4;7l");
    assert_eq!(
        p.events,
        vec![
            TerminalEvent::SetMode(vec![1000, 1006]),
            TerminalEvent::ResetMode(vec![4, 7]),
        ]
    );
}

#[test]
fn unhandled_csi_reports_action_and_params() {
    let mut p = Parser::new();
    p.feed(b"\x1b[5;3X");
    assert_eq!(
        p.events,
        vec![TerminalEvent::UnhandledCsi { action: 'X', params: vec![5, 3] }]
    );
}

#[test]
fn unhandled_esc_reports_byte() {
    let mut p = Parser::new();
    p.feed(b"\x1b7\x1bZ");
    assert_eq!(
        p.events,
        vec![TerminalEvent::UnhandledEsc(0x37), TerminalEvent::UnhandledEsc(0x5a)]
    );
}

#[test]
fn too_many_csi_parameters_drop_the_sequence() {
    let mut p = Parser::new();
    p.feed(b"\x1b[1m");
    let mut long = Vec::new();
    long.extend_from_slice(b"\x1b[");
    for _ in 0..40 {
        long.extend_from_slice(b"0;");
    }
    long.push(b'm');
    p.feed(&long);
    // The overlong reset was dropped whole: bold survives.
    assert_eq!(p.current_attributes(), Attributes { bold: true, ..attrs() });
}

#[test]
fn csi_intermediates_and_markers_are_consumed() {
    let mut p = Parser::new();
    p.feed(b"\x1b[?25l");
    assert_eq!(p.events, vec![TerminalEvent::ResetMode(vec![25])]);
}

#[test]
fn osc_bell_terminated() {
    let mut p = Parser::new();
    p.feed(b"\x1b]0;hello\x07");
    assert_eq!(p.events, vec![TerminalEvent::Osc(vec![b"0".to_vec(), b"hello".to_vec()])]);
}

#[test]
fn osc_st_terminated_matches_bell() {
    let mut bell = Parser::new();
    bell.feed(b"\x1b]2;hi\x07");
    let mut st = Parser::new();
    st.feed(b"\x1b]2;hi\x1b\\");
    assert_eq!(bell.events, st.events);
}

#[test]
fn osc_abandoned_by_other_escape() {
    let mut p = Parser::new();
    p.feed(b"\x1b]0;title\x1b[31mA");
    let red = Attributes { foreground: Color::Red, ..attrs() };
    // No Osc event: the CSI sequence abandoned the OSC payload.
    assert_eq!(p.events, vec![TerminalEvent::Print { ch: 'A', attrs: red }]);
}

#[test]
fn dcs_payload_is_consumed_silently() {
    let mut p = Parser::new();
    p.feed(b"\x1bPsome;data=1\x1b\\A");
    assert_eq!(p.events, vec![TerminalEvent::Print { ch: 'A', attrs: attrs() }]);
}

#[test]
fn utf8_two_byte_character() {
    let mut p = Parser::new();
    p.feed("é".as_bytes());
    assert_eq!(p.events, vec![TerminalEvent::Print { ch: 'é', attrs: attrs() }]);
}

#[test]
fn utf8_three_and_four_byte_characters() {
    let mut p = Parser::new();
    p.feed("€😀".as_bytes());
    assert_eq!(
        p.events,
        vec![
            TerminalEvent::Print { ch: '€', attrs: attrs() },
            TerminalEvent::Print { ch: '😀', attrs: attrs() },
        ]
    );
}

#[test]
fn utf8_sequence_straddles_chunks() {
    let bytes = "😀".as_bytes();
    let mut p = Parser::new();
    p.feed(&bytes[..2]);
    assert_eq!(p.events, vec![]);
    p.feed(&bytes[2..]);
    assert_eq!(p.events, vec![TerminalEvent::Print { ch: '😀', attrs: attrs() }]);
}

#[test]
fn invalid_utf8_is_skipped_without_stopping() {
    let mut p = Parser::new();
    // Invalid lead byte, overlong two-byte form, stray continuation byte,
    // and a surrogate encoding: none prints, later bytes still decode.
    p.feed(&[0xff, b'A', 0xc0, 0xaf, b'B', 0x80, 0xed, 0xa0, 0x80, b'C']);
    assert_eq!(
        p.events,
        vec![
            TerminalEvent::Print { ch: 'A', attrs: attrs() },
            TerminalEvent::Print { ch: 'B', attrs: attrs() },
            TerminalEvent::Print { ch: 'C', attrs: attrs() },
        ]
    );
}

#[test]
fn truncated_utf8_drops_partial_and_processes_byte() {
    let mut p = Parser::new();
    p.feed(&[0xc3, b'A']);
    assert_eq!(p.events, vec![TerminalEvent::Print { ch: 'A', attrs: attrs() }]);
}
