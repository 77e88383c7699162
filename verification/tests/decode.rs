use termkeys::decoder::{Events, EventsIter};
use termkeys::event::{DecodeError, Event, Key, Mouse, MouseButton};
use termkeys::source::{ByteSource, Pull};

fn all_events(bytes: &[u8]) -> Vec<Result<Event, DecodeError>> {
    let mut it: EventsIter = ByteSource::from_bytes(bytes.to_vec()).events();
    let mut out = Vec::new();
    while let Some(e) = it.next() {
        out.push(e);
    }
    out
}

fn one_event(bytes: &[u8]) -> Event {
    let mut all = all_events(bytes);
    assert_eq!(all.len(), 1);
    all.remove(0).unwrap()
}

fn character(s: &str) -> Event {
    Event::Key(Key::Character(s.to_string()))
}

#[test]
fn empty_stream_has_no_event() {
    let mut it = ByteSource::from_bytes(Vec::new()).events();
    assert_eq!(it.next(), None);
    assert_eq!(it.next(), None);
}

#[test]
fn printable_ascii_is_a_character() {
    for b in 0x20u8..0x7f {
        let expected = character(&(b as char).to_string());
        assert_eq!(one_event(&[b]), expected);
    }
}

#[test]
fn lone_escape_is_the_esc_key() {
    assert_eq!(one_event(&[0x1b]), Event::Key(Key::Esc));
}

#[test]
fn escape_before_a_failed_read_is_the_esc_key() {
    let mut it = ByteSource::new(vec![Pull::Byte(0x1b), Pull::Failure, Pull::Byte(b'a')]).events();
    assert_eq!(it.next(), Some(Ok(Event::Key(Key::Esc))));
    assert_eq!(it.next(), Some(Err(DecodeError::SourceIo)));
    assert_eq!(it.next(), Some(Ok(character("a"))));
    assert_eq!(it.next(), None);
}

#[test]
fn bare_arrows_and_home_end() {
    assert_eq!(one_event(&[0x1b, 0x5b, 0x41]), Event::Key(Key::Up));
    assert_eq!(one_event(b"\x1b[B"), Event::Key(Key::Down));
    assert_eq!(one_event(b"\x1b[C"), Event::Key(Key::Right));
    assert_eq!(one_event(b"\x1b[D"), Event::Key(Key::Left));
    assert_eq!(one_event(b"\x1b[F"), Event::Key(Key::End));
    assert_eq!(one_event(b"\x1b[H"), Event::Key(Key::Home));
    assert_eq!(one_event(b"\x1b[Z"), Event::Key(Key::BackTab));
}

#[test]
fn modified_arrows() {
    assert_eq!(one_event(&[0x1b, b'[', b'1', b';', b'2', b'A']), Event::Key(Key::ShiftUp));
    assert_eq!(one_event(b"\x1b[1;3A"), Event::Key(Key::AltUp));
    assert_eq!(one_event(b"\x1b[1;5A"), Event::Key(Key::CtrlUp));
    assert_eq!(one_event(b"\x1b[1;2B"), Event::Key(Key::ShiftDown));
    assert_eq!(one_event(b"\x1b[1;2C"), Event::Key(Key::ShiftRight));
    assert_eq!(one_event(b"\x1b[1;2D"), Event::Key(Key::ShiftLeft));
    assert_eq!(one_event(b"\x1b[1;3B"), Event::Key(Key::AltDown));
    assert_eq!(one_event(b"\x1b[1;3C"), Event::Key(Key::AltRight));
    assert_eq!(one_event(b"\x1b[1;3D"), Event::Key(Key::AltLeft));
    assert_eq!(one_event(b"\x1b[1;5B"), Event::Key(Key::CtrlDown));
    assert_eq!(one_event(b"\x1b[1;5C"), Event::Key(Key::CtrlRight));
    assert_eq!(one_event(b"\x1b[1;5D"), Event::Key(Key::CtrlLeft));
    assert_eq!(one_event(b"\x1b[1;5F"), Event::Key(Key::CtrlEnd));
    assert_eq!(one_event(b"\x1b[1;5H"), Event::Key(Key::CtrlHome));
}

#[test]
fn shift_has_no_home_or_end() {
    assert_eq!(one_event(b"\x1b[1;2H"), Event::Unknown(b"\x1b[1;2H".to_vec()));
    assert_eq!(
        all_events(b"\x1b[1;4A"),
        vec![Ok(Event::Unknown(b"\x1b[1;4".to_vec())), Ok(character("A"))]
    );
}

#[test]
fn two_byte_scalar_split_across_reads() {
    let mut rest = ByteSource::from_bytes(vec![0xA9]);
    assert_eq!(Event::parse(0xC3, &mut rest), Ok(character("é")));
    assert_eq!(rest.remaining(), 0);
    assert_eq!(all_events(&[0xC3, 0xA9]), vec![Ok(character("é"))]);
}

#[test]
fn longer_scalars() {
    assert_eq!(one_event("€".as_bytes()), character("€"));
    assert_eq!(one_event("𝄞".as_bytes()), character("𝄞"));
}

#[test]
fn control_codes() {
    assert_eq!(one_event(&[0x03]), Event::Key(Key::Ctrl("c".to_string())));
    assert_eq!(one_event(&[0x04]), Event::Key(Key::Ctrl("d".to_string())));
    assert_eq!(one_event(&[0x01]), Event::Key(Key::Ctrl("a".to_string())));
    assert_eq!(one_event(&[0x1a]), Event::Key(Key::Ctrl("z".to_string())));
    assert_eq!(one_event(&[0x1c]), Event::Key(Key::Ctrl("4".to_string())));
    assert_eq!(one_event(&[0x1f]), Event::Key(Key::Ctrl("7".to_string())));
}

#[test]
fn single_bytes_with_a_name() {
    assert_eq!(one_event(&[0x00]), Event::Key(Key::Null));
    assert_eq!(one_event(&[0x7f]), Event::Key(Key::Backspace));
    assert_eq!(one_event(b"\n"), character("\n"));
    assert_eq!(one_event(b"\r"), character("\n"));
    assert_eq!(one_event(b"\t"), character("\t"));
}

#[test]
fn x10_mouse_press() {
    assert_eq!(
        one_event(&[0x1b, b'[', b'M', 0x20, 0x21, 0x21]),
        Event::Mouse(Mouse::Press(MouseButton::Left, 1, 1))
    );
}

#[test]
fn x10_mouse_cut_short_is_unknown() {
    assert_eq!(one_event(b"\x1b[M !"), Event::Unknown(b"\x1b[M !".to_vec()));
}

#[test]
fn xterm_mouse_press_and_release() {
    assert_eq!(
        one_event(b"\x1b[<0;5;10M"),
        Event::Mouse(Mouse::Press(MouseButton::Left, 5, 10))
    );
    assert_eq!(one_event(b"\x1b[<0;5;10m"), Event::Mouse(Mouse::Release(5, 10)));
    assert_eq!(one_event(b"\x1b[<32;7;8M"), Event::Mouse(Mouse::Hold(7, 8)));
    assert_eq!(one_event(b"\x1b[<3;7;8M"), Event::Mouse(Mouse::Release(7, 8)));
    assert_eq!(
        one_event(b"\x1b[<65;2;3M"),
        Event::Mouse(Mouse::Press(MouseButton::WheelDown, 2, 3))
    );
}

#[test]
fn rxvt_mouse() {
    assert_eq!(
        one_event(b"\x1b[32;4;9M"),
        Event::Mouse(Mouse::Press(MouseButton::Left, 4, 9))
    );
    assert_eq!(one_event(b"\x1b[35;4;9M"), Event::Mouse(Mouse::Release(4, 9)));
    assert_eq!(one_event(b"\x1b[64;4;9M"), Event::Mouse(Mouse::Hold(4, 9)));
    assert_eq!(
        one_event(b"\x1b[97;4;9M"),
        Event::Mouse(Mouse::Press(MouseButton::WheelUp, 4, 9))
    );
    assert_eq!(one_event(b"\x1b[32;4M"), Event::Unknown(b"\x1b[32;4M".to_vec()));
}

#[test]
fn special_keys() {
    assert_eq!(one_event(b"\x1b[2~"), Event::Key(Key::Insert));
    assert_eq!(one_event(b"\x1b[3~"), Event::Key(Key::Delete));
    assert_eq!(one_event(b"\x1b[5~"), Event::Key(Key::PageUp));
    assert_eq!(one_event(b"\x1b[6~"), Event::Key(Key::PageDown));
    assert_eq!(one_event(b"\x1b[7~"), Event::Key(Key::Home));
    assert_eq!(one_event(b"\x1b[8~"), Event::Key(Key::End));
    assert_eq!(one_event(b"\x1b[4~"), Event::Key(Key::End));
    assert_eq!(one_event(b"\x1b[01~"), Event::Key(Key::Home));
    assert_eq!(one_event(b"\x1b[21~"), Event::Key(Key::F(10)));
    assert_eq!(one_event(b"\x1b[23~"), Event::Key(Key::F(11)));
    assert_eq!(one_event(b"\x1b[24~"), Event::Key(Key::F(12)));
    assert_eq!(one_event(b"\x1b[05~"), Event::Key(Key::PageUp));
}

#[test]
fn several_modifier_values_are_unknown() {
    assert_eq!(one_event(b"\x1b[3;2~"), Event::Unknown(b"\x1b[3;2~".to_vec()));
    assert_eq!(one_event(b"\x1b[22~"), Event::Unknown(b"\x1b[22~".to_vec()));
}

#[test]
fn function_keys() {
    assert_eq!(one_event(b"\x1bOP"), Event::Key(Key::F(1)));
    assert_eq!(one_event(b"\x1bOS"), Event::Key(Key::F(4)));
    assert_eq!(one_event(b"\x1b[[A"), Event::Key(Key::F(1)));
    assert_eq!(one_event(b"\x1b[[E"), Event::Key(Key::F(5)));
    assert_eq!(one_event(b"\x1bOT"), Event::Unknown(b"\x1bOT".to_vec()));
}

#[test]
fn alt_with_a_character() {
    assert_eq!(one_event(b"\x1bx"), Event::Key(Key::Alt("x".to_string())));
    assert_eq!(
        one_event(&[0x1b, 0xC3, 0xA9]),
        Event::Key(Key::Alt("é".to_string()))
    );
}

#[test]
fn unknown_terminator_keeps_every_byte() {
    assert_eq!(
        one_event(b"\x1b[999X"),
        Event::Unknown(vec![0x1b, b'[', b'9', b'9', b'9', b'X'])
    );
}

#[test]
fn unknown_keeps_bytes_before_a_failed_read() {
    let mut it = ByteSource::new(vec![
        Pull::Byte(0x1b),
        Pull::Byte(b'['),
        Pull::Byte(b'<'),
        Pull::Byte(b'0'),
        Pull::Failure,
        Pull::Byte(b'q'),
    ])
    .events();
    assert_eq!(it.next(), Some(Ok(Event::Unknown(b"\x1b[<0".to_vec()))));
    assert_eq!(it.next(), Some(Ok(character("q"))));
    assert_eq!(it.next(), None);
}

#[test]
fn invalid_utf8_is_unknown() {
    assert_eq!(
        all_events(&[0xff, 0x41, 0x42, 0x43, 0x44]),
        vec![Ok(Event::Unknown(vec![0xff, 0x41, 0x42, 0x43])), Ok(character("D"))]
    );
    assert_eq!(one_event(&[0xC3]), Event::Unknown(vec![0xC3]));
}

#[test]
fn back_to_back_sequences() {
    assert_eq!(
        all_events(b"\x1b[1;5A\x1b[<0;5;10Mab\x1b[3~"),
        vec![
            Ok(Event::Key(Key::CtrlUp)),
            Ok(Event::Mouse(Mouse::Press(MouseButton::Left, 5, 10))),
            Ok(character("a")),
            Ok(character("b")),
            Ok(Event::Key(Key::Delete)),
        ]
    );
}

#[test]
fn first_read_failure_is_an_error_for_that_call_only() {
    let mut it = ByteSource::new(vec![Pull::Failure, Pull::Byte(b'z')]).events();
    assert_eq!(it.next(), Some(Err(DecodeError::SourceIo)));
    assert_eq!(it.next(), Some(Ok(character("z"))));
}

#[test]
fn parse_csi_reports_malformed() {
    let mut s = ByteSource::from_bytes(b"x".to_vec());
    assert_eq!(Event::parse_csi(&mut s), Err(DecodeError::MalformedSequence));
    let mut s = ByteSource::from_bytes(Vec::new());
    assert_eq!(Event::parse_csi(&mut s), Err(DecodeError::MalformedSequence));
    let mut s = ByteSource::from_bytes(b"A".to_vec());
    assert_eq!(Event::parse_csi(&mut s), Ok(Event::Key(Key::Up)));
}

#[test]
fn parse_utf8_reports_invalid() {
    let mut s = ByteSource::from_bytes(vec![0x41]);
    assert_eq!(Event::parse_utf8(0xC3, &mut s), Err(DecodeError::InvalidUtf8));
    let mut s = ByteSource::from_bytes(Vec::new());
    assert_eq!(Event::parse_utf8(0xC3, &mut s), Err(DecodeError::InvalidUtf8));
    let mut s = ByteSource::from_bytes(vec![0x41]);
    assert_eq!(Event::parse_utf8(b'q', &mut s), Ok("q".to_string()));
    assert_eq!(s.remaining(), 1);
}

#[test]
fn parse_escape_sequence_at_end_is_malformed() {
    let mut s = ByteSource::from_bytes(Vec::new());
    assert_eq!(Event::parse_escape_sequence(&mut s), Err(DecodeError::MalformedSequence));
    let mut s = ByteSource::from_bytes(vec![0xC3, 0x28]);
    assert_eq!(Event::parse_escape_sequence(&mut s), Err(DecodeError::InvalidUtf8));
}

fn first_event_and_dryness(bytes: &[u8]) -> (Option<Result<Event, DecodeError>>, bool, usize) {
    let mut it: EventsIter = ByteSource::from_bytes(bytes.to_vec()).events();
    let event = it.next();
    (event, it.source.ran_dry(), it.source.position())
}

#[test]
fn a_sequence_cut_by_the_end_runs_dry() {
    assert_eq!(
        first_event_and_dryness(b"\x1b[1;5"),
        (Some(Ok(Event::Unknown(b"\x1b[1;5".to_vec()))), true, 5)
    );
    assert_eq!(
        first_event_and_dryness(&[0xC3]),
        (Some(Ok(Event::Unknown(vec![0xC3]))), true, 1)
    );
    assert_eq!(
        first_event_and_dryness(b"\x1b[<0;5;10"),
        (Some(Ok(Event::Unknown(b"\x1b[<0;5;10".to_vec()))), true, 9)
    );
}

#[test]
fn a_settled_attempt_does_not_run_dry() {
    assert_eq!(
        first_event_and_dryness(b"\x1b[999X"),
        (Some(Ok(Event::Unknown(b"\x1b[999X".to_vec()))), false, 6)
    );
    assert_eq!(first_event_and_dryness(&[0x1b]), (Some(Ok(Event::Key(Key::Esc))), false, 1));
    assert_eq!(first_event_and_dryness(&[]), (None, false, 0));
    assert_eq!(first_event_and_dryness(b"\x1b[1;5Aq"), (Some(Ok(Event::Key(Key::CtrlUp))), false, 6));
    assert_eq!(first_event_and_dryness(&[0xC3, 0xA9]), (Some(Ok(character("é"))), false, 2));
}

#[test]
fn a_failed_read_in_a_sequence_does_not_run_dry() {
    let mut it = ByteSource::new(vec![Pull::Byte(0xC3), Pull::Failure]).events();
    assert_eq!(it.next(), Some(Ok(Event::Unknown(vec![0xC3]))));
    assert!(!it.source.ran_dry());
    assert_eq!(it.source.position(), 2);
}

#[test]
fn failed_read_after_escape_is_the_source_error() {
    let mut s = ByteSource::new(vec![Pull::Failure, Pull::Byte(b'A')]);
    assert_eq!(Event::parse_escape_sequence(&mut s), Err(DecodeError::SourceIo));
    assert_eq!(s.position(), 1);
    assert!(!s.ran_dry());
    assert_eq!(s.pull(), Some(b'A'));
}

#[test]
fn end_of_stream_after_escape_is_malformed_and_dry() {
    let mut s = ByteSource::new(Vec::new());
    assert_eq!(Event::parse_escape_sequence(&mut s), Err(DecodeError::MalformedSequence));
    assert_eq!(s.position(), 0);
    assert!(s.ran_dry());
}

#[test]
fn failed_read_later_in_an_escape_sequence_is_malformed() {
    let mut s = ByteSource::new(vec![Pull::Byte(b'O'), Pull::Failure]);
    assert_eq!(Event::parse_escape_sequence(&mut s), Err(DecodeError::MalformedSequence));
    assert_eq!(s.position(), 2);
    let mut s = ByteSource::new(vec![Pull::Byte(b'['), Pull::Failure]);
    assert_eq!(Event::parse_escape_sequence(&mut s), Err(DecodeError::MalformedSequence));
    let mut s = ByteSource::new(vec![Pull::Byte(0xC3), Pull::Failure]);
    assert_eq!(Event::parse_escape_sequence(&mut s), Err(DecodeError::InvalidUtf8));
}

#[test]
fn parse_turns_a_failed_read_after_escape_into_unknown() {
    let mut s = ByteSource::new(vec![Pull::Failure, Pull::Byte(b'A')]);
    assert_eq!(Event::parse(0x1b, &mut s), Ok(Event::Unknown(vec![0x1b])));
    assert_eq!(s.position(), 1);
}
