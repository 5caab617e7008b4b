use ansi_tokens::ansi::colors::{Colors, IndexedColor};
use ansi_tokens::ansi::list::List;
use ansi_tokens::ansi::named::NamedColor;
use ansi_tokens::ansi::rgb::Rgb;
use ansi_tokens::ansi::sgr::{SgrDiagnostic, SgrFault};
use ansi_tokens::parser::{chars_count, paint, parse, Parser, Token};
use ansi_tokens::reports::{Recorder, Report};
use vte::Perform;

fn rgb(r: u8, g: u8, b: u8) -> Rgb {
    Rgb { r, g, b }
}

fn palette() -> List {
    List::from(&Colors::default())
}

const FOREGROUND: Rgb = Rgb { r: 0xc5, g: 0xc8, b: 0xc6 };
const RED: Rgb = Rgb { r: 0xcc, g: 0x66, b: 0x66 };

#[test]
fn new_parser_starts_with_the_default_foreground() {
    let parser = Parser::new(palette());
    assert_eq!(parser.output, vec![Token::Color(FOREGROUND)]);
    assert_eq!(parser.palette, palette());
    assert!(parser.diagnostics.is_empty());
}

#[test]
fn new_parser_takes_the_foreground_of_its_palette() {
    let mut colors = Colors::default();
    colors.primary.foreground = rgb(1, 2, 3);
    let parser = Parser::new(List::from(&colors));
    assert_eq!(parser.output, vec![Token::Color(rgb(1, 2, 3))]);
}

#[test]
fn default_parser_uses_the_default_configuration() {
    let parser = Parser::default();
    assert_eq!(parser.output, vec![Token::Color(FOREGROUND)]);
    assert_eq!(parser.palette, palette());
}

#[test]
fn print_appends_a_character() {
    let mut parser = Parser::new(palette());
    parser.print('A');
    parser.print('é');
    assert_eq!(
        parser.output,
        vec![Token::Color(FOREGROUND), Token::Char('A'), Token::Char('é')]
    );
}

#[test]
fn csi_with_another_final_byte_is_ignored() {
    let mut parser = Parser::new(palette());
    for action in ['H', 'J', 'K', 'A', 'M', 'n', 'l'] {
        parser.csi_dispatch(&[31], &[], false, action);
    }
    assert_eq!(parser.output, vec![Token::Color(FOREGROUND)]);
}

#[test]
fn named_foreground_is_resolved() {
    let mut parser = Parser::new(palette());
    parser.csi_dispatch(&[31], &[], false, 'm');
    parser.csi_dispatch(&[94], &[], false, 'm');
    parser.csi_dispatch(&[39], &[], false, 'm');
    assert_eq!(
        parser.output,
        vec![
            Token::Color(FOREGROUND),
            Token::Color(RED),
            Token::Color(rgb(0x7a, 0xa6, 0xda)),
            Token::Color(FOREGROUND),
        ]
    );
}

#[test]
fn indexed_foreground_is_resolved() {
    let mut colors = Colors::default();
    colors.indexed_colors.push(IndexedColor { index: 200, color: rgb(4, 5, 6) });
    let mut parser = Parser::new(List::from(&colors));
    parser.csi_dispatch(&[38, 5, 196], &[], false, 'm');
    parser.csi_dispatch(&[38, 5, 1], &[], false, 'm');
    parser.csi_dispatch(&[38, 5, 255], &[], false, 'm');
    parser.csi_dispatch(&[38, 5, 200], &[], false, 'm');
    assert_eq!(
        parser.output[1..],
        [
            Token::Color(rgb(255, 0, 0)),
            Token::Color(RED),
            Token::Color(rgb(238, 238, 238)),
            Token::Color(rgb(4, 5, 6)),
        ]
    );
}

#[test]
fn direct_foreground_passes_through() {
    let mut parser = Parser::new(palette());
    parser.csi_dispatch(&[38, 2, 255, 0, 0], &[], false, 'm');
    parser.csi_dispatch(&[38, 2, 1, 2, 3], &[], false, 'm');
    assert_eq!(
        parser.output[1..],
        [Token::Color(rgb(255, 0, 0)), Token::Color(rgb(1, 2, 3))]
    );
}

#[test]
fn reset_restores_the_default_foreground() {
    let mut parser = Parser::new(palette());
    parser.csi_dispatch(&[31], &[], false, 'm');
    parser.print('x');
    let before = parser.output.clone();
    parser.csi_dispatch(&[0], &[], false, 'm');
    assert_eq!(parser.output[..before.len()], before[..]);
    assert_eq!(parser.output[before.len()..], [Token::Color(FOREGROUND)]);
}

#[test]
fn styles_and_backgrounds_emit_nothing() {
    let mut parser = Parser::new(palette());
    parser.csi_dispatch(&[1, 2, 3, 4, 5, 6, 7, 8, 9], &[], false, 'm');
    parser.csi_dispatch(&[21, 22, 23, 24, 25, 27, 28, 29], &[], false, 'm');
    parser.csi_dispatch(&[41, 49, 101, 48, 5, 3, 48, 2, 1, 2, 3], &[], false, 'm');
    assert_eq!(parser.output, vec![Token::Color(FOREGROUND)]);
}

#[test]
fn entries_that_fail_emit_nothing() {
    let mut parser = Parser::new(palette());
    parser.csi_dispatch(&[999], &[], false, 'm');
    parser.csi_dispatch(&[38], &[], false, 'm');
    parser.csi_dispatch(&[38, 5, 256], &[], false, 'm');
    parser.csi_dispatch(&[38, 9], &[], false, 'm');
    assert_eq!(parser.output, vec![Token::Color(FOREGROUND)]);
}

#[test]
fn a_failed_colour_does_not_stop_the_sequence() {
    let mut parser = Parser::new(palette());
    // 38 fails, 2 is dim, 256 has no meaning, 31 is red, 0 resets.
    parser.csi_dispatch(&[38, 2, 256, 31, 0], &[], false, 'm');
    assert_eq!(
        parser.output[1..],
        [Token::Color(RED), Token::Color(FOREGROUND)]
    );
}

#[test]
fn several_attributes_in_one_sequence_keep_their_order() {
    let mut parser = Parser::new(palette());
    parser.csi_dispatch(&[1, 32, 44, 38, 5, 21, 0, 38, 2, 9, 8, 7], &[], false, 'm');
    assert_eq!(
        parser.output[1..],
        [
            Token::Color(rgb(0xb5, 0xbd, 0x68)),
            Token::Color(rgb(0, 0, 255)),
            Token::Color(FOREGROUND),
            Token::Color(rgb(9, 8, 7)),
        ]
    );
}

#[test]
fn other_callbacks_change_nothing() {
    let mut parser = Parser::new(palette());
    parser.print('a');
    let before = parser.output.clone();
    parser.execute(b'\n');
    parser.hook(&[1, 2], &[b'$'], false, 'q');
    parser.put(b'x');
    parser.unhook();
    parser.osc_dispatch(&[b"0", b"title"], true);
    parser.esc_dispatch(&[b'('], false, b'B');
    assert_eq!(parser.output, before);
    assert_eq!(parser.palette, palette());
}

#[test]
fn red_a_reset_b_by_callbacks() {
    let mut parser = Parser::new(palette());
    parser.csi_dispatch(&[31], &[], false, 'm');
    parser.print('A');
    parser.csi_dispatch(&[0], &[], false, 'm');
    parser.print('B');
    assert_eq!(parser.chars_count(), 2);
    assert_eq!(
        parser.finish(),
        vec![
            Token::Color(FOREGROUND),
            Token::Color(RED),
            Token::Char('A'),
            Token::Color(FOREGROUND),
            Token::Char('B'),
        ]
    );
}

#[test]
fn red_a_reset_b_from_bytes() {
    let tokens = parse(b"\x1b[31mA\x1b[0mB", palette());
    assert_eq!(
        tokens,
        vec![
            Token::Color(FOREGROUND),
            Token::Color(RED),
            Token::Char('A'),
            Token::Color(FOREGROUND),
            Token::Char('B'),
        ]
    );
    assert_eq!(chars_count(&tokens), 2);
}

#[test]
fn unknown_code_from_bytes() {
    let tokens = parse(b"\x1b[999mX", palette());
    assert_eq!(tokens, vec![Token::Color(FOREGROUND), Token::Char('X')]);
    assert_eq!(chars_count(&tokens), 1);
}

#[test]
fn unknown_code_by_callbacks() {
    let mut parser = Parser::new(palette());
    parser.csi_dispatch(&[999], &[], false, 'm');
    parser.print('X');
    assert_eq!(parser.output, vec![Token::Color(FOREGROUND), Token::Char('X')]);
}

#[test]
fn parse_of_nothing_is_the_first_token() {
    assert_eq!(parse(b"", palette()), vec![Token::Color(FOREGROUND)]);
}

#[test]
fn parse_plain_text() {
    assert_eq!(
        parse("hé".as_bytes(), palette()),
        vec![Token::Color(FOREGROUND), Token::Char('h'), Token::Char('é')]
    );
}

#[test]
fn parse_extended_colours_from_bytes() {
    let tokens = parse(b"\x1b[38;2;255;0;0mR\x1b[38;5;21mB\x1b[38;5;256mZ", palette());
    assert_eq!(
        tokens,
        vec![
            Token::Color(FOREGROUND),
            Token::Color(rgb(255, 0, 0)),
            Token::Char('R'),
            Token::Color(rgb(0, 0, 255)),
            Token::Char('B'),
            Token::Char('Z'),
        ]
    );
}

#[test]
fn parse_ignores_other_control_sequences() {
    let tokens = parse(b"\x1b[2Ja\x1b[1;1Hb\x1b]0;title\x07c\x1b(Bd\n", palette());
    assert_eq!(
        tokens,
        vec![
            Token::Color(FOREGROUND),
            Token::Char('a'),
            Token::Char('b'),
            Token::Char('c'),
            Token::Char('d'),
        ]
    );
}

#[test]
fn parse_takes_the_colours_of_the_palette() {
    let mut colors = Colors::default();
    colors.primary.foreground = rgb(10, 20, 30);
    colors.normal.0.red = rgb(40, 50, 60);
    let tokens = parse(b"\x1b[31mA\x1b[mB", List::from(&colors));
    assert_eq!(
        tokens,
        vec![
            Token::Color(rgb(10, 20, 30)),
            Token::Color(rgb(40, 50, 60)),
            Token::Char('A'),
            Token::Color(rgb(10, 20, 30)),
            Token::Char('B'),
        ]
    );
}

#[test]
fn bytes_in_pieces_give_the_stream_of_the_bytes_at_once() {
    let input = b"\x1b[38;5;196mre\x1b[0md \x1b[32mgreen";
    let whole = parse(input, palette());
    for cut in 0..=input.len() {
        let mut machine = vte::Parser::new();
        let mut parser = Parser::new(palette());
        for byte in &input[..cut] {
            machine.advance(&mut parser, *byte);
        }
        for byte in &input[cut..] {
            machine.advance(&mut parser, *byte);
        }
        assert_eq!(parser.finish(), whole);
    }
}

#[test]
fn reports_in_pieces_give_the_stream_of_the_reports_at_once() {
    let input = b"\x1b[38;5;196mre\x1b[0md \x1b[32mgreen\x1b[38;5;256m";
    let mut machine = vte::Parser::new();
    let mut recorder = Recorder::default();
    for byte in input {
        machine.advance(&mut recorder, *byte);
    }
    let mut whole = Parser::new(palette());
    whole.run(input);
    for cut in 0..=recorder.reports.len() {
        let mut parser = Parser::new(palette());
        parser.perform_all(&recorder.reports[..cut]);
        parser.perform_all(&recorder.reports[cut..]);
        assert_eq!(parser.output, whole.output);
        assert_eq!(parser.diagnostics, whole.diagnostics);
    }
}

#[test]
fn run_only_appends() {
    let mut parser = Parser::new(palette());
    parser.run(b"ab\x1b[31m");
    let before = parser.output.clone();
    parser.run(b"c\x1b[0md");
    assert_eq!(parser.output[..before.len()], before[..]);
    assert_eq!(
        parser.output[before.len()..],
        [Token::Char('c'), Token::Color(FOREGROUND), Token::Char('d')]
    );
    assert_eq!(parser.palette, palette());
}

#[test]
fn run_of_nothing_changes_nothing() {
    let mut parser = Parser::new(palette());
    parser.run(b"x\x1b[38;5;256m");
    let output = parser.output.clone();
    let diagnostics = parser.diagnostics.clone();
    parser.run(b"");
    assert_eq!(parser.output, output);
    assert_eq!(parser.diagnostics, diagnostics);
}

#[test]
fn recorder_keeps_what_each_call_receives() {
    let mut machine = vte::Parser::new();
    let mut recorder = Recorder::default();
    for byte in b"A\n\x1b[1;31mB\x1b]0;hi\x07\x1b(B\x1bP1$qx\x1b\\" {
        machine.advance(&mut recorder, *byte);
    }
    assert_eq!(
        recorder.reports,
        vec![
            Report::Print('A'),
            Report::Execute(b'\n'),
            Report::Csi { params: vec![1, 31], intermediates: vec![], ignore: false, action: 'm' },
            Report::Print('B'),
            Report::Osc { parts: vec![b"0".to_vec(), b"hi".to_vec()], bell_terminated: true },
            Report::Esc { intermediates: vec![b'('], ignore: false, byte: b'B' },
            Report::Hook { params: vec![1], intermediates: vec![b'$'], ignore: false, action: 'q' },
            Report::Put(b'x'),
            Report::Unhook,
            Report::Esc { intermediates: vec![], ignore: false, byte: b'\\' },
        ]
    );
}

#[test]
fn perform_takes_a_report_as_the_call_is_taken() {
    let reports = [
        Report::Print('A'),
        Report::Execute(b'\n'),
        Report::Csi { params: vec![31], intermediates: vec![], ignore: false, action: 'm' },
        Report::Csi { params: vec![32], intermediates: vec![], ignore: false, action: 'H' },
        Report::Osc { parts: vec![b"0".to_vec()], bell_terminated: false },
        Report::Hook { params: vec![1], intermediates: vec![], ignore: false, action: 'q' },
        Report::Put(b'x'),
        Report::Unhook,
        Report::Esc { intermediates: vec![], ignore: false, byte: b'c' },
        Report::Csi { params: vec![38, 5, 256], intermediates: vec![], ignore: false, action: 'm' },
        Report::Print('B'),
    ];
    let mut parser = Parser::new(palette());
    for report in &reports {
        parser.perform(report);
    }
    assert_eq!(
        parser.output,
        vec![
            Token::Color(FOREGROUND),
            Token::Char('A'),
            Token::Color(RED),
            Token::Char('B'),
        ]
    );
    assert_eq!(
        parser.diagnostics,
        vec![SgrDiagnostic { position: 0, fault: SgrFault::InvalidIndex { index: 256 } }]
    );
    let mut all = Parser::new(palette());
    all.perform_all(&reports);
    assert_eq!(all.output, parser.output);
    assert_eq!(all.diagnostics, parser.diagnostics);
}

#[test]
fn a_sequence_cut_off_by_the_end_of_the_input_is_lost() {
    assert_eq!(parse(b"a\x1b[31", palette()), vec![Token::Color(FOREGROUND), Token::Char('a')]);
    let mut parser = Parser::new(palette());
    parser.run(b"a\x1b[31");
    parser.run(b"mb");
    assert_eq!(
        parser.output,
        vec![Token::Color(FOREGROUND), Token::Char('a'), Token::Char('m'), Token::Char('b')]
    );
}

#[test]
fn chars_count_counts_characters_only() {
    assert_eq!(chars_count(&[]), 0);
    assert_eq!(chars_count(&[Token::Color(RED)]), 0);
    assert_eq!(
        chars_count(&[
            Token::Color(RED),
            Token::Char('a'),
            Token::Color(RED),
            Token::Color(FOREGROUND),
            Token::Char('b'),
            Token::Char('c'),
        ]),
        3
    );
}

#[test]
fn sgr_sequences_leave_the_character_count() {
    let mut parser = Parser::new(palette());
    parser.print('a');
    parser.csi_dispatch(&[31, 0, 38, 2, 1, 2, 3], &[], false, 'm');
    assert_eq!(parser.chars_count(), 1);
    parser.print('b');
    assert_eq!(parser.chars_count(), 2);
}

#[test]
fn finish_hands_over_the_output() {
    let mut parser = Parser::new(palette());
    parser.print('z');
    let expected = parser.output.clone();
    assert_eq!(parser.finish(), expected);
}

#[test]
fn paint_pairs_characters_with_the_colour_in_force() {
    let tokens = [
        Token::Char('a'),
        Token::Color(RED),
        Token::Char('b'),
        Token::Char('c'),
        Token::Color(rgb(1, 1, 1)),
        Token::Color(rgb(2, 2, 2)),
        Token::Char('d'),
        Token::Color(rgb(3, 3, 3)),
    ];
    assert_eq!(
        paint(&tokens, FOREGROUND),
        vec![(FOREGROUND, 'a'), (RED, 'b'), (RED, 'c'), (rgb(2, 2, 2), 'd')]
    );
    assert_eq!(paint(&[], FOREGROUND), vec![]);
}

#[test]
fn paint_yields_one_pair_per_character() {
    let tokens = parse(b"\x1b[31mab\x1b[0mc\x1b[38;5;21m", palette());
    assert_eq!(paint(&tokens, rgb(9, 9, 9)).len(), chars_count(&tokens));
}

#[test]
fn paint_after_a_colour_change_forgets_the_initial_colour() {
    let tokens = parse(b"a\x1b[31mb", palette());
    assert_eq!(paint(&tokens, rgb(9, 9, 9)), paint(&tokens, rgb(1, 1, 1)));
    assert_eq!(paint(&tokens, rgb(9, 9, 9)), vec![(FOREGROUND, 'a'), (RED, 'b')]);
}

#[test]
fn named_colour_tokens_come_from_the_named_slot() {
    let list = palette();
    let mut parser = Parser::new(list);
    parser.csi_dispatch(&[35], &[], false, 'm');
    assert_eq!(parser.output[1], Token::Color(list[NamedColor::Magenta]));
}

#[test]
fn faults_are_kept_as_diagnostics() {
    let mut parser = Parser::new(palette());
    parser.csi_dispatch(&[31, 38, 5, 256], &[], false, 'm');
    parser.print('a');
    parser.csi_dispatch(&[38, 2, 1, 2, 3], &[], false, 'm');
    parser.csi_dispatch(&[48], &[], false, 'm');
    parser.csi_dispatch(&[38, 9], &[], false, 'H');
    assert_eq!(
        parser.diagnostics,
        vec![
            SgrDiagnostic { position: 1, fault: SgrFault::InvalidIndex { index: 256 } },
            SgrDiagnostic { position: 0, fault: SgrFault::MissingSelector },
        ]
    );
    assert_eq!(
        parser.output,
        vec![
            Token::Color(FOREGROUND),
            Token::Color(RED),
            Token::Char('a'),
            Token::Color(rgb(1, 2, 3)),
        ]
    );
}

#[test]
fn faults_from_bytes_are_kept_as_diagnostics() {
    let mut parser = Parser::new(palette());
    parser.run(b"\x1b[38;2;256;0;0mA\x1b[38;7mB\x1b[31mC");
    assert_eq!(
        parser.diagnostics,
        vec![
            SgrDiagnostic { position: 0, fault: SgrFault::InvalidRgb { r: 256, g: 0, b: 0 } },
            SgrDiagnostic { position: 0, fault: SgrFault::UnexpectedSelector { selector: 7 } },
        ]
    );
    assert_eq!(
        parser.output,
        vec![
            Token::Color(FOREGROUND),
            Token::Color(FOREGROUND),
            Token::Color(FOREGROUND),
            Token::Char('A'),
            Token::Char('B'),
            Token::Color(RED),
            Token::Char('C'),
        ]
    );
}
