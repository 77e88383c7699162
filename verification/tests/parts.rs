use termkeys::event::{Key, Mouse, MouseButton};
use termkeys::keys::{decode_letter, decode_modified, decode_special};
use termkeys::mouse::{decode_rxvt, decode_x10, decode_xterm, parse_numbers};
use termkeys::number::{parse_decimal, split_fields};
use termkeys::source::{ByteSource, Pull};
use termkeys::text::{ascii_text, decode_text};

#[test]
fn decimal_numbers() {
    assert_eq!(parse_decimal(&b"0".to_vec()), Some(0));
    assert_eq!(parse_decimal(&b"007".to_vec()), Some(7));
    assert_eq!(parse_decimal(&b"65535".to_vec()), Some(65535));
    assert_eq!(parse_decimal(&b"65536".to_vec()), None);
    assert_eq!(parse_decimal(&b"99999999999999999999".to_vec()), None);
    assert_eq!(parse_decimal(&b"+5".to_vec()), Some(5));
    assert_eq!(parse_decimal(&b"+".to_vec()), None);
    assert_eq!(parse_decimal(&b"".to_vec()), None);
    assert_eq!(parse_decimal(&b"-5".to_vec()), None);
    assert_eq!(parse_decimal(&b"1a".to_vec()), None);
    assert_eq!(parse_decimal(&b"5+".to_vec()), None);
}

#[test]
fn decimal_agrees_with_std() {
    for s in ["0", "12", "+12", "0012", "65535", "65536", "", "+", "++1", "1 ", "x"] {
        assert_eq!(parse_decimal(&s.as_bytes().to_vec()), s.parse::<u16>().ok());
    }
}

#[test]
fn fields_of_a_list() {
    assert_eq!(split_fields(&b"".to_vec()), vec![Vec::<u8>::new()]);
    assert_eq!(split_fields(&b"1;22;3".to_vec()), vec![b"1".to_vec(), b"22".to_vec(), b"3".to_vec()]);
    assert_eq!(split_fields(&b";a;".to_vec()), vec![Vec::new(), b"a".to_vec(), Vec::new()]);
}

#[test]
fn lists_of_numbers() {
    assert_eq!(parse_numbers(&b"1;2;3".to_vec()), Some(vec![1, 2, 3]));
    assert_eq!(parse_numbers(&b"1;2;".to_vec()), None);
    assert_eq!(parse_numbers(&b"7".to_vec()), Some(vec![7]));
}

#[test]
fn x10_buttons_and_wheel() {
    assert_eq!(decode_x10(32, 33, 33), Mouse::Press(MouseButton::Left, 1, 1));
    assert_eq!(decode_x10(33, 42, 52), Mouse::Press(MouseButton::Middle, 10, 20));
    assert_eq!(decode_x10(34, 255, 32), Mouse::Press(MouseButton::Right, 223, 0));
    assert_eq!(decode_x10(35, 33, 34), Mouse::Release(1, 2));
    assert_eq!(decode_x10(96, 33, 34), Mouse::Press(MouseButton::WheelUp, 1, 2));
    assert_eq!(decode_x10(97, 33, 34), Mouse::Press(MouseButton::WheelDown, 1, 2));
    assert_eq!(decode_x10(98, 33, 34), Mouse::Press(MouseButton::WheelLeft, 1, 2));
    assert_eq!(decode_x10(99, 33, 34), Mouse::Press(MouseButton::WheelRight, 1, 2));
    assert_eq!(decode_x10(0, 10, 31), Mouse::Press(MouseButton::WheelUp, 0, 0));
}

#[test]
fn xterm_reports() {
    assert_eq!(decode_xterm(&b"1;2;3".to_vec(), b'M'), Some(Mouse::Press(MouseButton::Middle, 2, 3)));
    assert_eq!(decode_xterm(&b"2;2;3".to_vec(), b'm'), Some(Mouse::Release(2, 3)));
    assert_eq!(decode_xterm(&b"64;2;3".to_vec(), b'M'), Some(Mouse::Press(MouseButton::WheelUp, 2, 3)));
    assert_eq!(decode_xterm(&b"66;2;3".to_vec(), b'M'), Some(Mouse::Press(MouseButton::WheelLeft, 2, 3)));
    assert_eq!(decode_xterm(&b"67;2;3".to_vec(), b'M'), Some(Mouse::Press(MouseButton::WheelRight, 2, 3)));
    assert_eq!(decode_xterm(&b"0;2;3;".to_vec(), b'M'), Some(Mouse::Press(MouseButton::Left, 2, 3)));
    assert_eq!(decode_xterm(&b"4;2;3".to_vec(), b'M'), None);
    assert_eq!(decode_xterm(&b"0;2".to_vec(), b'M'), None);
    assert_eq!(decode_xterm(&b"0;x;3".to_vec(), b'M'), None);
    assert_eq!(decode_xterm(&vec![b'0', b';', b'1', b';', b'2', b';', 0xff], b'M'), None);
}

#[test]
fn rxvt_reports() {
    assert_eq!(decode_rxvt(&b"33;1;2".to_vec()), Some(Mouse::Press(MouseButton::Middle, 1, 2)));
    assert_eq!(decode_rxvt(&b"34;1;2".to_vec()), Some(Mouse::Press(MouseButton::Right, 1, 2)));
    assert_eq!(decode_rxvt(&b"96;1;2".to_vec()), Some(Mouse::Press(MouseButton::WheelUp, 1, 2)));
    assert_eq!(decode_rxvt(&b"36;1;2".to_vec()), None);
    assert_eq!(decode_rxvt(&b"32;1;2;".to_vec()), None);
}

#[test]
fn keys_by_letter_and_number() {
    assert_eq!(decode_letter(b'A'), Some(Key::Up));
    assert_eq!(decode_letter(b'E'), None);
    assert_eq!(decode_modified(b'5', b'H'), Some(Key::CtrlHome));
    assert_eq!(decode_modified(b'3', b'H'), None);
    assert_eq!(decode_special(&b"11".to_vec()), Some(Key::F(1)));
    assert_eq!(decode_special(&b"15".to_vec()), Some(Key::F(5)));
    assert_eq!(decode_special(&b"17".to_vec()), Some(Key::F(6)));
    assert_eq!(decode_special(&b"16".to_vec()), None);
    assert_eq!(decode_special(&b"300".to_vec()), None);
    assert_eq!(decode_special(&b"1".to_vec()), Some(Key::Home));
}

#[test]
fn text_from_bytes() {
    assert_eq!(decode_text(&"é".as_bytes().to_vec()), Some("é".to_string()));
    assert_eq!(decode_text(&vec![0xC3]), None);
    assert_eq!(decode_text(&Vec::new()), Some(String::new()));
    assert_eq!(ascii_text(b'a'), "a".to_string());
}

#[test]
fn source_pulls_in_order() {
    let mut s = ByteSource::new(vec![Pull::Byte(1), Pull::Failure, Pull::Byte(3)]);
    assert_eq!(s.remaining(), 3);
    assert_eq!(s.peek(), Some(Pull::Byte(1)));
    assert_eq!(s.pull(), Some(1));
    assert_eq!(s.pull(), None);
    assert_eq!(s.position(), 2);
    assert_eq!(s.pull(), Some(3));
    assert_eq!(s.pull(), None);
    assert_eq!(s.position(), 3);
    assert_eq!(s.pulled_since(0), vec![1, 3]);
    assert_eq!(s.peek(), None);
}
