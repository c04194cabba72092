//! Events that the screen's elements handle: terminal input (keys, mouse,
//! resizing) and the outcomes of buttons.
use vstd::prelude::*;

use crate::text::{self, dec_seq};

verus! {

/// A key of the keyboard.
#[derive(Clone, Copy, Debug, PartialEq, Eq, Structural)]
pub enum KeyCode {
    Backspace,
    Enter,
    Left,
    Right,
    Up,
    Down,
    Home,
    End,
    PageUp,
    PageDown,
    Tab,
    BackTab,
    Delete,
    Insert,
    F(u8),
    Char(char),
    Null,
    Esc,
}

/// The modifier keys held with a key, as a set of bits: shift (1),
/// control (2) and alt (4).
#[derive(Clone, Copy, Debug, PartialEq, Eq, Structural)]
pub struct KeyModifiers {
    pub bits: u8,
}

/// The shift key.
pub const SHIFT: u8 = 1;

/// The control key.
pub const CONTROL: u8 = 2;

/// The alt key.
pub const ALT: u8 = 4;

impl KeyModifiers {
    /// No modifier.
    pub fn empty() -> (r: KeyModifiers)
        ensures
            r.bits == 0,
    {
        KeyModifiers { bits: 0 }
    }

    /// Whether no modifier is held.
    pub fn is_empty(&self) -> (r: bool)
        ensures
            r == (self.bits == 0),
    {
        self.bits == 0
    }

    /// Whether every modifier of `other` is held.
    pub fn contains(&self, other: u8) -> (r: bool)
        ensures
            r == (self.bits & other == other),
    {
        self.bits & other == other
    }
}

/// A mouse button.
#[derive(Clone, Copy, Debug, PartialEq, Eq, Structural)]
pub enum MouseButton {
    Left,
    Right,
    Middle,
}

/// An event: input from the terminal, or what a button asks for.
#[derive(Clone, Copy, Debug, PartialEq, Eq, Structural)]
pub enum Event {
    Resize { cols: u16, rows: u16 },
    Key { code: KeyCode, modifiers: KeyModifiers },
    MouseDown { button: MouseButton, col: u16, row: u16, modifiers: KeyModifiers },
    MouseUp { button: MouseButton, col: u16, row: u16, modifiers: KeyModifiers },
    MouseDrag { button: MouseButton, col: u16, row: u16, modifiers: KeyModifiers },
    MouseScrollDown { col: u16, row: u16, modifiers: KeyModifiers },
    MouseScrollUp { col: u16, row: u16, modifiers: KeyModifiers },
    Submit,
    Cancel,
    Reset,
}

/// The modifiers held with an event (none for events without them).
pub open spec fn modifiers_of(e: Event) -> KeyModifiers {
    match e {
        Event::Key { modifiers, .. } => modifiers,
        Event::MouseDown { modifiers, .. } => modifiers,
        Event::MouseUp { modifiers, .. } => modifiers,
        Event::MouseDrag { modifiers, .. } => modifiers,
        Event::MouseScrollDown { modifiers, .. } => modifiers,
        Event::MouseScrollUp { modifiers, .. } => modifiers,
        _ => KeyModifiers { bits: 0 },
    }
}

/// The key of a key event.
pub open spec fn key_code_of(e: Event) -> Option<KeyCode> {
    match e {
        Event::Key { code, .. } => Some(code),
        _ => None,
    }
}

impl Event {
    /// The modifiers held with the event.
    pub fn to_modifier(&self) -> (r: KeyModifiers)
        ensures
            r == modifiers_of(*self),
    {
        match self {
            Event::Key { modifiers, .. } => *modifiers,
            Event::MouseDown { modifiers, .. } => *modifiers,
            Event::MouseUp { modifiers, .. } => *modifiers,
            Event::MouseDrag { modifiers, .. } => *modifiers,
            Event::MouseScrollDown { modifiers, .. } => *modifiers,
            Event::MouseScrollUp { modifiers, .. } => *modifiers,
            _ => KeyModifiers::empty(),
        }
    }

    /// The key of a key event.
    pub fn to_key_code(&self) -> (r: Option<KeyCode>)
        ensures
            r == key_code_of(*self),
    {
        match self {
            Event::Key { code, .. } => Some(*code),
            _ => None,
        }
    }
}

// ---------------------------------------------------------------------
// Events as text.

/// The text that `Debug` gives for the character `c`.
pub uninterp spec fn char_debug_text(c: char) -> Seq<char>;

/// The text that crossterm's `KeyModifiers` gives with `Debug` for the
/// modifier bits `bits`, of which only the three known ones count: the
/// names of the modifiers held, in the order `SHIFT`, `CONTROL`, `ALT`,
/// joined by ` | `; `NONE` when none is held.
pub open spec fn modifiers_debug_text(bits: u8) -> Seq<char> {
    let shift = bits % 2 == 1;
    let control = (bits / 2) % 2 == 1;
    let alt = (bits / 4) % 2 == 1;
    if !shift && !control && !alt {
        "NONE"@
    } else {
        (if shift {
            "SHIFT"@
        } else {
            Seq::empty()
        }) + (if control {
            (if shift {
                " | "@
            } else {
                Seq::empty()
            }) + "CONTROL"@
        } else {
            Seq::empty()
        }) + (if alt {
            (if shift || control {
                " | "@
            } else {
                Seq::empty()
            }) + "ALT"@
        } else {
            Seq::empty()
        })
    }
}

/// Formats `c` with `Debug` (std writes it quoted, with escapes).
#[verifier::external_body]
fn char_debug(c: char) -> (r: String)
    ensures
        r@ == char_debug_text(c),
{
    format!("{:?}", c)
}

/// Formats crossterm's `KeyModifiers` made from `bits` with `Debug`
/// (`from_bits_truncate` keeps the bits of the modifiers that crossterm
/// knows). The contract states the text that bitflags' `Debug` writes:
/// the names of the flags held in their declared order, joined by ` | `,
/// and the zero flag `NONE` only when no bit is set.
#[verifier::external_body]
fn modifiers_debug(bits: u8) -> (r: String)
    ensures
        r@ == modifiers_debug_text(bits),
{
    format!("{:?}", crossterm::event::KeyModifiers::from_bits_truncate(bits))
}

/// The text of a key: the name of its variant, with its number or its
/// character in brackets.
pub open spec fn key_code_text(c: KeyCode) -> Seq<char> {
    match c {
        KeyCode::Backspace => "Backspace"@,
        KeyCode::Enter => "Enter"@,
        KeyCode::Left => "Left"@,
        KeyCode::Right => "Right"@,
        KeyCode::Up => "Up"@,
        KeyCode::Down => "Down"@,
        KeyCode::Home => "Home"@,
        KeyCode::End => "End"@,
        KeyCode::PageUp => "PageUp"@,
        KeyCode::PageDown => "PageDown"@,
        KeyCode::Tab => "Tab"@,
        KeyCode::BackTab => "BackTab"@,
        KeyCode::Delete => "Delete"@,
        KeyCode::Insert => "Insert"@,
        KeyCode::F(n) => "F("@ + dec_seq(n as nat) + ")"@,
        KeyCode::Char(ch) => "Char("@ + char_debug_text(ch) + ")"@,
        KeyCode::Null => "Null"@,
        KeyCode::Esc => "Esc"@,
    }
}

/// The text of a mouse button: the name of its variant.
pub open spec fn button_text(b: MouseButton) -> Seq<char> {
    match b {
        MouseButton::Left => "Left"@,
        MouseButton::Right => "Right"@,
        MouseButton::Middle => "Middle"@,
    }
}

/// The text of a mouse event named `name`, at `col`, `row`, with its
/// button (if any) and its modifiers.
pub open spec fn mouse_text(
    name: Seq<char>,
    col: u16,
    row: u16,
    button: Option<MouseButton>,
    m: KeyModifiers,
) -> Seq<char> {
    name + " col:"@ + dec_seq(col as nat) + " row:"@ + dec_seq(row as nat) + match button {
        Some(b) => " button:"@ + button_text(b),
        None => Seq::<char>::empty(),
    } + " modifiers:"@ + modifiers_debug_text(m.bits)
}

/// The text of an event.
pub open spec fn event_text(e: Event) -> Seq<char> {
    match e {
        Event::Resize { cols, rows } => "resize cols:"@ + dec_seq(cols as nat) + " rows:"@
            + dec_seq(rows as nat),
        Event::Key { code, modifiers } => "key code:"@ + key_code_text(code) + " modifier:"@
            + modifiers_debug_text(modifiers.bits),
        Event::MouseDown { button, col, row, modifiers } => mouse_text(
            "mousedown"@,
            col,
            row,
            Some(button),
            modifiers,
        ),
        Event::MouseUp { button, col, row, modifiers } => mouse_text(
            "mouseup"@,
            col,
            row,
            Some(button),
            modifiers,
        ),
        Event::MouseDrag { button, col, row, modifiers } => mouse_text(
            "mousedrag"@,
            col,
            row,
            Some(button),
            modifiers,
        ),
        Event::MouseScrollDown { col, row, modifiers } => mouse_text(
            "mouse_scrolldown"@,
            col,
            row,
            None,
            modifiers,
        ),
        Event::MouseScrollUp { col, row, modifiers } => mouse_text(
            "mouse_scrollup"@,
            col,
            row,
            None,
            modifiers,
        ),
        Event::Submit => "submit"@,
        Event::Cancel => "cancel"@,
        Event::Reset => "reset"@,
    }
}

/// Appends the text of the key `c`.
fn push_key_code(v: &mut Vec<char>, c: KeyCode)
    ensures
        final(v)@ == old(v)@ + key_code_text(c),
{
    match c {
        KeyCode::Backspace => text::push_str(v, "Backspace"),
        KeyCode::Enter => text::push_str(v, "Enter"),
        KeyCode::Left => text::push_str(v, "Left"),
        KeyCode::Right => text::push_str(v, "Right"),
        KeyCode::Up => text::push_str(v, "Up"),
        KeyCode::Down => text::push_str(v, "Down"),
        KeyCode::Home => text::push_str(v, "Home"),
        KeyCode::End => text::push_str(v, "End"),
        KeyCode::PageUp => text::push_str(v, "PageUp"),
        KeyCode::PageDown => text::push_str(v, "PageDown"),
        KeyCode::Tab => text::push_str(v, "Tab"),
        KeyCode::BackTab => text::push_str(v, "BackTab"),
        KeyCode::Delete => text::push_str(v, "Delete"),
        KeyCode::Insert => text::push_str(v, "Insert"),
        KeyCode::F(n) => {
            text::push_str(v, "F(");
            text::push_dec(v, n as u128);
            text::push_str(v, ")");
            assert(v@ =~= old(v)@ + key_code_text(c));
        },
        KeyCode::Char(ch) => {
            text::push_str(v, "Char(");
            let d = char_debug(ch);
            text::push_str(v, d.as_str());
            text::push_str(v, ")");
            assert(v@ =~= old(v)@ + key_code_text(c));
        },
        KeyCode::Null => text::push_str(v, "Null"),
        KeyCode::Esc => text::push_str(v, "Esc"),
    }
}

/// Appends the text of a mouse event (see `mouse_text`).
fn push_mouse(
    v: &mut Vec<char>,
    name: &str,
    col: u16,
    row: u16,
    button: Option<MouseButton>,
    m: KeyModifiers,
)
    ensures
        final(v)@ == old(v)@ + mouse_text(name@, col, row, button, m),
{
    text::push_str(v, name);
    text::push_str(v, " col:");
    text::push_dec(v, col as u128);
    text::push_str(v, " row:");
    text::push_dec(v, row as u128);
    match button {
        Some(b) => {
            text::push_str(v, " button:");
            match b {
                MouseButton::Left => text::push_str(v, "Left"),
                MouseButton::Right => text::push_str(v, "Right"),
                MouseButton::Middle => text::push_str(v, "Middle"),
            }
        },
        None => {},
    }
    text::push_str(v, " modifiers:");
    let t = modifiers_debug(m.bits);
    text::push_str(v, t.as_str());
    assert(v@ =~= old(v)@ + mouse_text(name@, col, row, button, m));
}

impl Event {
    /// The event as text.
    pub fn to_string(&self) -> (r: String)
        ensures
            r@ == event_text(*self),
    {
        let mut v: Vec<char> = Vec::new();
        match *self {
            Event::Resize { cols, rows } => {
                text::push_str(&mut v, "resize cols:");
                text::push_dec(&mut v, cols as u128);
                text::push_str(&mut v, " rows:");
                text::push_dec(&mut v, rows as u128);
            },
            Event::Key { code, modifiers } => {
                text::push_str(&mut v, "key code:");
                push_key_code(&mut v, code);
                text::push_str(&mut v, " modifier:");
                let t = modifiers_debug(modifiers.bits);
                text::push_str(&mut v, t.as_str());
            },
            Event::MouseDown { button, col, row, modifiers } => {
                push_mouse(&mut v, "mousedown", col, row, Some(button), modifiers);
            },
            Event::MouseUp { button, col, row, modifiers } => {
                push_mouse(&mut v, "mouseup", col, row, Some(button), modifiers);
            },
            Event::MouseDrag { button, col, row, modifiers } => {
                push_mouse(&mut v, "mousedrag", col, row, Some(button), modifiers);
            },
            Event::MouseScrollDown { col, row, modifiers } => {
                push_mouse(&mut v, "mouse_scrolldown", col, row, None, modifiers);
            },
            Event::MouseScrollUp { col, row, modifiers } => {
                push_mouse(&mut v, "mouse_scrollup", col, row, None, modifiers);
            },
            Event::Submit => text::push_str(&mut v, "submit"),
            Event::Cancel => text::push_str(&mut v, "cancel"),
            Event::Reset => text::push_str(&mut v, "reset"),
        }
        assert(v@ =~= event_text(*self));
        text::string_from_chars(v.as_slice())
    }
}

} // verus!
