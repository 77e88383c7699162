//! Keys, mouse actions and events, and what each stands for in contracts.

use vstd::prelude::*;

verus! {

/// A key press.
#[derive(Debug, Clone, PartialEq, Eq)]
pub enum Key {
    /// The Esc key alone.
    Esc,
    /// Backspace.
    Backspace,
    /// A function key, by its number.
    F(u8),
    /// Alt with a character.
    Alt(String),
    /// Ctrl with a lowercase letter, or with one of the digits 4 to 7.
    Ctrl(String),
    /// A character; newline and tab too.
    Character(String),
    /// The zero byte.
    Null,
    ShiftLeft,
    ShiftRight,
    ShiftUp,
    ShiftDown,
    AltLeft,
    AltRight,
    AltUp,
    AltDown,
    CtrlLeft,
    CtrlRight,
    CtrlUp,
    CtrlDown,
    CtrlHome,
    CtrlEnd,
    Left,
    Right,
    Up,
    Down,
    Home,
    End,
    PageUp,
    PageDown,
    BackTab,
    Insert,
    Delete,
}

/// A key press with its text as a sequence of characters.
pub enum KeyView {
    /// The Esc key alone.
    Esc,
    /// Backspace.
    Backspace,
    /// A function key, by its number.
    F(u8),
    /// Alt with a character.
    Alt(Seq<char>),
    /// Ctrl with a lowercase letter, or with one of the digits 4 to 7.
    Ctrl(Seq<char>),
    /// A character; newline and tab too.
    Character(Seq<char>),
    /// The zero byte.
    Null,
    ShiftLeft,
    ShiftRight,
    ShiftUp,
    ShiftDown,
    AltLeft,
    AltRight,
    AltUp,
    AltDown,
    CtrlLeft,
    CtrlRight,
    CtrlUp,
    CtrlDown,
    CtrlHome,
    CtrlEnd,
    Left,
    Right,
    Up,
    Down,
    Home,
    End,
    PageUp,
    PageDown,
    BackTab,
    Insert,
    Delete,
}

impl View for Key {
    type V = KeyView;

    open spec fn view(&self) -> KeyView {
        match self {
            Key::Esc => KeyView::Esc,
            Key::Backspace => KeyView::Backspace,
            Key::F(n) => KeyView::F(*n),
            Key::Alt(t) => KeyView::Alt(t@),
            Key::Ctrl(t) => KeyView::Ctrl(t@),
            Key::Character(t) => KeyView::Character(t@),
            Key::Null => KeyView::Null,
            Key::ShiftLeft => KeyView::ShiftLeft,
            Key::ShiftRight => KeyView::ShiftRight,
            Key::ShiftUp => KeyView::ShiftUp,
            Key::ShiftDown => KeyView::ShiftDown,
            Key::AltLeft => KeyView::AltLeft,
            Key::AltRight => KeyView::AltRight,
            Key::AltUp => KeyView::AltUp,
            Key::AltDown => KeyView::AltDown,
            Key::CtrlLeft => KeyView::CtrlLeft,
            Key::CtrlRight => KeyView::CtrlRight,
            Key::CtrlUp => KeyView::CtrlUp,
            Key::CtrlDown => KeyView::CtrlDown,
            Key::CtrlHome => KeyView::CtrlHome,
            Key::CtrlEnd => KeyView::CtrlEnd,
            Key::Left => KeyView::Left,
            Key::Right => KeyView::Right,
            Key::Up => KeyView::Up,
            Key::Down => KeyView::Down,
            Key::Home => KeyView::Home,
            Key::End => KeyView::End,
            Key::PageUp => KeyView::PageUp,
            Key::PageDown => KeyView::PageDown,
            Key::BackTab => KeyView::BackTab,
            Key::Insert => KeyView::Insert,
            Key::Delete => KeyView::Delete,
        }
    }
}

/// A mouse button or a turn of the wheel.
#[derive(Debug, Clone, Copy, PartialEq, Eq)]
pub enum MouseButton {
    Left,
    Right,
    Middle,
    WheelUp,
    WheelDown,
    WheelLeft,
    WheelRight,
}

/// A mouse action at a column and a row, both counted from 1.
#[derive(Debug, Clone, Copy, PartialEq, Eq)]
pub enum Mouse {
    /// A button went down, or the wheel turned.
    Press(MouseButton, u16, u16),
    /// A button came up.
    Release(u16, u16),
    /// The mouse moved with a button held.
    Hold(u16, u16),
}

/// One decoded event.
#[derive(Debug, Clone, PartialEq, Eq)]
pub enum Event {
    Key(Key),
    Mouse(Mouse),
    /// Bytes that fit no known sequence: every byte that the attempt took.
    Unknown(Vec<u8>),
}

/// An event with its text and bytes as sequences.
pub enum EventView {
    Key(KeyView),
    Mouse(Mouse),
    Unknown(Seq<u8>),
}

impl View for Event {
    type V = EventView;

    open spec fn view(&self) -> EventView {
        match self {
            Event::Key(k) => EventView::Key(k@),
            Event::Mouse(m) => EventView::Mouse(*m),
            Event::Unknown(b) => EventView::Unknown(b@),
        }
    }
}

/// Why a decoding attempt gave no event.
#[derive(Debug, Clone, Copy, PartialEq, Eq)]
pub enum DecodeError {
    /// The source failed to read where an event or an escape sequence was
    /// to begin.
    SourceIo,
    /// The bytes fit no known sequence.
    MalformedSequence,
    /// The bytes did not become well-formed UTF-8 within four bytes.
    InvalidUtf8,
}

/// The view of a key that may be absent.
pub open spec fn key_view(k: Option<Key>) -> Option<KeyView> {
    match k {
        Some(k) => Some(k@),
        None => None,
    }
}

} // verus!
