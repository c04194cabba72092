use ledger::edit_buffer::{Buffer, EditEvent};
use ledger::errors::Error;
use ledger::event::{Event, KeyCode, KeyModifiers, CONTROL, SHIFT};
use ropey::Rope;

fn key(code: KeyCode) -> Event {
    Event::Key { code, modifiers: KeyModifiers { bits: 0 } }
}

fn key_with(code: KeyCode, bits: u8) -> Event {
    Event::Key { code, modifiers: KeyModifiers { bits } }
}

#[test]
fn test_rope_char_to_line() {
    let s = "hello world\nhow are you".to_string();
    let buf = Rope::from_reader(s.as_bytes()).unwrap();
    assert_eq!(0, buf.char_to_line(0));
    assert_eq!('d', buf.char(10));
    assert_eq!(0, buf.char_to_line(10));
    assert_eq!('\n', buf.char(11));
    assert_eq!(0, buf.char_to_line(11));
    assert_eq!(1, buf.char_to_line(12));
}

#[test]
fn test_rope_line_len() {
    let s = "hello world\nhow are you".to_string();
    let buf = Rope::from_reader(s.as_bytes()).unwrap();
    let line = buf.line(buf.char_to_line(0));
    assert_eq!(12, line.len_chars());
}

#[test]
fn test_buffer_lines() {
    let b = Buffer::from_reader("hello world\nhow are you".as_bytes()).unwrap();
    assert_eq!(b.to_string(), "hello world\nhow are you");
    assert_eq!(b.view_lines(0), vec!["hello world\n".to_string(), "how are you".to_string()]);
    assert_eq!(b.view_lines(1), vec!["how are you".to_string()]);
    assert_eq!(b.view_lines(2), Vec::<String>::new());
}

#[test]
fn test_buffer_lines_show_tabs_as_spaces() {
    let b = Buffer::from_reader("a\tb\r\nc".as_bytes()).unwrap();
    assert_eq!(b.view_lines(0), vec!["a    b\r\n".to_string(), "c".to_string()]);
}

#[test]
fn test_buffer_from_bad_utf8() {
    let e = Buffer::from_reader(&[0x66, 0xff, 0x66]).err().unwrap();
    assert!(matches!(e, Error::IOError(_)));
}

#[test]
fn test_buffer_typing() {
    let mut b = Buffer::empty().unwrap();
    let r = b.handle_event(key(KeyCode::Char('a'))).unwrap();
    assert_eq!((r.col_at, r.row_at), (1, 0));
    assert!(r.evnt.is_none());
    let r = b.handle_event(key(KeyCode::Enter)).unwrap();
    assert_eq!((r.col_at, r.row_at), (0, 1));
    let r = b.handle_event(key(KeyCode::Tab)).unwrap();
    assert_eq!((r.col_at, r.row_at), (4, 1));
    let r = b.handle_event(key(KeyCode::Char('z'))).unwrap();
    assert_eq!((r.col_at, r.row_at), (5, 1));
    assert_eq!(b.to_string(), "a\n\tz");
}

#[test]
fn test_backspace_undoes_typing() {
    let mut b = Buffer::from_reader("xy".as_bytes()).unwrap();
    b.handle_event(key(KeyCode::End)).unwrap();
    for code in [KeyCode::Char('q'), KeyCode::Enter, KeyCode::Tab] {
        b.handle_event(key(code)).unwrap();
        let r = b.handle_event(key(KeyCode::Backspace)).unwrap();
        assert_eq!(b.to_string(), "xy");
        assert_eq!((r.col_at, r.row_at), (2, 0));
    }
}

#[test]
fn test_backspace_at_start() {
    let mut b = Buffer::from_reader("ab".as_bytes()).unwrap();
    let r = b.handle_event(key(KeyCode::Backspace)).unwrap();
    assert_eq!((r.col_at, r.row_at), (0, 0));
    assert_eq!(b.to_string(), "ab");
}

#[test]
fn test_cursor_moves() {
    let mut b = Buffer::from_reader("abc\nde\nfghij".as_bytes()).unwrap();
    let r = b.handle_event(key(KeyCode::End)).unwrap();
    assert_eq!((r.col_at, r.row_at), (3, 0));
    let r = b.handle_event(key(KeyCode::Down)).unwrap();
    assert_eq!((r.col_at, r.row_at), (2, 1));
    let r = b.handle_event(key(KeyCode::Down)).unwrap();
    assert_eq!((r.col_at, r.row_at), (2, 2));
    let r = b.handle_event(key(KeyCode::End)).unwrap();
    assert_eq!((r.col_at, r.row_at), (5, 2));
    let r = b.handle_event(key(KeyCode::Up)).unwrap();
    assert_eq!((r.col_at, r.row_at), (2, 1));
    let r = b.handle_event(key(KeyCode::Home)).unwrap();
    assert_eq!((r.col_at, r.row_at), (0, 1));
    let r = b.handle_event(key(KeyCode::Left)).unwrap();
    assert_eq!((r.col_at, r.row_at), (0, 1));
    let r = b.handle_event(key(KeyCode::Right)).unwrap();
    assert_eq!((r.col_at, r.row_at), (1, 1));
    let r = b.handle_event(key(KeyCode::Delete)).unwrap();
    assert_eq!((r.col_at, r.row_at), (1, 1));
    assert_eq!(b.to_string(), "abc\nd\nfghij");
}

#[test]
fn test_passed_on_events() {
    let mut b = Buffer::from_reader("ab".as_bytes()).unwrap();
    let e = key(KeyCode::F(1));
    let r = b.handle_event(e).unwrap();
    assert!(r.evnt == Some(e));
    let e = key_with(KeyCode::Char('['), CONTROL);
    let r = b.handle_event(e).unwrap();
    assert!(r.evnt == Some(e));
    let e = key_with(KeyCode::Char('x'), SHIFT);
    let r = b.handle_event(e).unwrap();
    assert!(r.evnt == Some(e));
    assert_eq!(b.to_string(), "ab");
}

#[test]
fn test_edit_event_from() {
    assert!(EditEvent::from(key(KeyCode::Backspace)) == EditEvent::Backspace);
    assert!(EditEvent::from(key_with(KeyCode::Backspace, SHIFT)) == EditEvent::Noop);
    assert!(EditEvent::from(key_with(KeyCode::Char('['), CONTROL)) == EditEvent::Esc);
    assert!(EditEvent::from(Event::Submit) == EditEvent::Noop);
    let m = EditEvent::to_modifiers(&EditEvent::Char('x', KeyModifiers { bits: 0 }));
    assert_eq!(m.bits, 0);
}

#[test]
fn test_can_handle() {
    let b = Buffer::from_reader("a".as_bytes()).unwrap();
    assert!(b.can_handle(&key(KeyCode::Char('b'))));
    assert!(!b.can_handle(&key(KeyCode::Char('\u{7}'))));
}

#[test]
fn test_event_text() {
    assert_eq!(Event::Resize { cols: 80, rows: 24 }.to_string(), "resize cols:80 rows:24");
    assert_eq!(key(KeyCode::Char('q')).to_string(), "key code:Char('q') modifier:NONE");
    assert_eq!(key_with(KeyCode::F(5), SHIFT).to_string(), "key code:F(5) modifier:SHIFT");
    assert_eq!(key(KeyCode::BackTab).to_string(), "key code:BackTab modifier:NONE");
    let m = Event::MouseDown {
        button: ledger::event::MouseButton::Left,
        col: 3,
        row: 4,
        modifiers: KeyModifiers { bits: CONTROL | 4 },
    };
    assert_eq!(m.to_string(), "mousedown col:3 row:4 button:Left modifiers:CONTROL | ALT");
    let s = Event::MouseScrollUp { col: 1, row: 2, modifiers: KeyModifiers { bits: 0 } };
    assert_eq!(s.to_string(), "mouse_scrollup col:1 row:2 modifiers:NONE");
    let all = Event::MouseScrollDown { col: 1, row: 2, modifiers: KeyModifiers { bits: SHIFT | CONTROL | 4 } };
    assert_eq!(all.to_string(), "mouse_scrolldown col:1 row:2 modifiers:SHIFT | CONTROL | ALT");
    assert_eq!(Event::Submit.to_string(), "submit");
}
