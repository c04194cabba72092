use crossterm::style::{style, Color};
use ledger::event::{Event, KeyCode, KeyModifiers};
use ledger::term::{handle_key_event, PageNewWorkspace};
use ledger::term_elements::{
    Border, Button, ButtonType, EditBox, EditLine, Element, HeadLine, Received, Span, StatusLine,
    Viewport, BG_LAYER, FG_STATUS,
};
use ledger::term_layers::{main_viewport, Cursor, Layer, NewWorkspace, TabOffsets};
use ledger::util::CalDate;

fn key(code: KeyCode) -> Event {
    Event::Key { code, modifiers: KeyModifiers { bits: 0 } }
}

fn move_to(col: u16, row: u16) -> String {
    crossterm::cursor::MoveTo(col, row).to_string()
}

#[test]
fn test_tab_offsets() {
    let mut t = TabOffsets::new(vec![1, 3, 4, 0]);
    assert_eq!(t.current(), 1);
    assert_eq!(t.tab(), 1);
    assert_eq!(t.current(), 3);
    assert_eq!(t.back_tab(), 3);
    assert_eq!(t.current(), 1);
    assert_eq!(t.back_tab(), 1);
    assert_eq!(t.current(), 0);
    assert_eq!(t.tab(), 0);
    assert_eq!(t.current(), 1);
    assert_eq!(t.tab_to(1), None);
    assert_eq!(t.tab_to(4), Some(4));
    assert_eq!(t.current(), 4);
    assert_eq!(t.tab(), 4);
    assert_eq!(t.current(), 1);
}

#[test]
fn test_viewport_geometry() {
    let vp = Viewport::new(10, 5, 4, 20);
    assert_eq!(vp.to_string(), "Viewport<col:10 row:5 height:4 width:20>");
    assert_eq!(vp.to_origin(), (10, 5));
    assert_eq!(vp.to_size(), (4, 20));
    assert_eq!(vp.to_top(), 5);
    assert_eq!(vp.to_left(), 10);
    assert_eq!(vp.to_right(), 29);
    assert_eq!(vp.to_bottom(), 8);
    assert_eq!(vp.to_ed_origin(), (0, 0));
    assert_eq!(vp.to_cursor_off(), (0, 0));
    assert_eq!(vp.to_cursor(), (10, 5));
    assert!(vp.contain_cell(10, 5));
    assert!(vp.contain_cell(29, 8));
    assert!(!vp.contain_cell(30, 8));
    assert!(!vp.contain_cell(29, 9));
    assert!(!vp.contain_cell(9, 5));
    assert_eq!(vp.col_range(), 10..30);
    assert_eq!(vp.row_range(), 5..9);
    let moved = vp.move_by(3, -2).resize_to(1, 7);
    assert_eq!(moved.to_origin(), (13, 3));
    assert_eq!(moved.to_size(), (1, 7));
}

#[test]
fn test_viewport_follows_cursor() {
    let mut vp = Viewport::new(1, 1, 3, 10);
    vp.apply_ed_cursor((4, 1));
    assert_eq!(vp.to_cursor_off(), (4, 1));
    assert_eq!(vp.to_ed_origin(), (0, 0));
    // past the right edge: the view scrolls so the cursor sits at the edge
    vp.apply_ed_cursor((15, 1));
    assert_eq!(vp.to_cursor_off(), (9, 1));
    assert_eq!(vp.to_ed_origin(), (6, 0));
    // past the bottom edge
    vp.apply_ed_cursor((15, 5));
    assert_eq!(vp.to_cursor_off(), (9, 2));
    assert_eq!(vp.to_ed_origin(), (6, 3));
    // back before the left edge
    vp.apply_ed_cursor((2, 5));
    assert_eq!(vp.to_cursor_off(), (0, 2));
    assert_eq!(vp.to_ed_origin(), (2, 3));
    let mut vp2 = Viewport::new(1, 1, 5, 10);
    vp2.set_scroll_off(1);
    vp2.apply_ed_cursor((0, 6));
    assert_eq!(vp2.to_cursor_off(), (0, 4));
    assert_eq!(vp2.to_ed_origin(), (0, 2));
}

#[test]
fn test_cursor_stays_inside_viewport() {
    let mut vp = Viewport::new(3, 2, 4, 5);
    let cursors = [(0, 0), (12, 0), (12, 9), (1, 9), (0, 0), (7, 3), (30, 40), (29, 38)];
    for ec in cursors.iter() {
        vp.apply_ed_cursor(*ec);
        let (c, r) = vp.to_cursor();
        assert!(Element::StatusLine(StatusLine::new(vp).unwrap()).contain_cell(c, r));
        assert_eq!(vp.to_origin(), (3, 2));
        assert_eq!(vp.to_size(), (4, 5));
        let (ec0, er0) = vp.to_ed_origin();
        let (oc, or) = vp.to_cursor_off();
        assert_eq!((ec0 + oc as usize, er0 + or as usize), *ec);
    }
}

#[test]
fn test_main_viewport() {
    let vp = main_viewport(80, 24);
    assert_eq!(vp.to_origin(), (1, 2));
    assert_eq!(vp.to_size(), (22, 80));
    assert_eq!(vp.to_cursor_off(), (0, 0));
    assert_eq!(vp.to_ed_origin(), (0, 0));
    assert!(NewWorkspace::new(vp).is_ok());
    assert_eq!(main_viewport(1, 2).to_size(), (0, 1));
}

#[test]
fn test_status_line() {
    let mut st = StatusLine::new(Viewport::new(1, 10, 1, 6)).unwrap();
    st.log("hi");
    let expect = format!(
        "{}{}",
        move_to(0, 9),
        style("hi    ").on(Color::AnsiValue(BG_LAYER)).with(Color::AnsiValue(FG_STATUS))
    );
    assert_eq!(st.to_string(), expect);
    st.log("a long message");
    assert!(st.to_string().contains("a long message"));
    assert!(!st.refresh(false));
    assert!(st.refresh(true));
}

#[test]
fn test_status_line_default_has_no_cells() {
    let el = Element::StatusLine(StatusLine::default());
    assert!(!el.contain_cell(0, 0));
    assert!(!el.contain_cell(1, 1));
}

#[test]
fn test_span() {
    let mut sp = Span::new(Viewport::new(3, 4, 1, 10), "title").unwrap();
    sp.set_fg_color(9);
    let expect = format!(
        "{}{}",
        move_to(2, 3),
        style("title").on(Color::AnsiValue(BG_LAYER)).with(Color::AnsiValue(9))
    );
    assert_eq!(sp.to_string(), expect);
    let e = key(KeyCode::Enter);
    assert!(sp.handle_event(e).unwrap() == Some(e));
}

#[test]
fn test_button() {
    let mut b = Button::new(Viewport::new(2, 2, 1, 6), "ok", ButtonType::Submit).unwrap();
    let normal = b.to_string();
    assert!(normal.starts_with(&move_to(1, 1)));
    assert!(normal.ends_with("  ok  "));
    assert!(b.handle_event(key(KeyCode::Enter)).unwrap() == Some(Event::Submit));
    let e = key(KeyCode::Char('x'));
    assert!(b.handle_event(e).unwrap() == Some(e));
    b.focus();
    assert!(b.refresh(false));
    let highlighted = b.to_string();
    assert!(highlighted != normal);
    assert!(!b.refresh(false));
    b.leave();
    assert!(b.refresh(false));
    assert_eq!(b.to_string(), normal);
    let mut c = Button::new(Viewport::new(2, 2, 1, 5), "no", ButtonType::Cancel).unwrap();
    assert!(c.handle_event(key(KeyCode::Enter)).unwrap() == Some(Event::Cancel));
    let mut r = Button::new(Viewport::new(2, 2, 1, 5), "re", ButtonType::Reset).unwrap();
    assert!(r.handle_event(key(KeyCode::Enter)).unwrap() == Some(Event::Reset));
    assert!(ButtonType::default() == ButtonType::Simple);
}

#[test]
fn test_border() {
    let mut b = Border::new(Viewport::new(1, 1, 3, 4), "T".to_string()).unwrap();
    let s = b.to_string();
    assert!(s.contains("╭"));
    assert!(s.contains("╯"));
    assert!(s.contains(" T "));
    b.focus();
    assert!(b.refresh(false));
    assert!(b.to_string() != s);
    let e = key(KeyCode::Tab);
    assert!(b.handle_event(e).unwrap() == Some(e));
}

#[test]
fn test_edit_line_typing() {
    let mut em = EditLine::new(Viewport::new(2, 3, 1, 20)).unwrap();
    em.set_inline("type here");
    em.set_field("Name:");
    assert!(em.to_string().contains("type here"));
    let cell = em.focus();
    assert_eq!(cell, (7, 3));
    assert!(!em.to_string().contains("type here"));
    let (out, cell) = em.handle_event(key(KeyCode::Char('a'))).unwrap();
    assert!(out.is_none());
    assert_eq!(cell, (8, 3));
    let (out, _) = em.handle_event(key(KeyCode::Char('b'))).unwrap();
    assert!(out.is_none());
    let e = key(KeyCode::Tab);
    let (out, cell) = em.handle_event(e).unwrap();
    assert!(out == Some(e));
    assert_eq!(cell, (9, 3));
    assert!(em.to_string().ends_with(&style("ab").on(Color::AnsiValue(232)).with(Color::AnsiValue(15)).to_string()));
    em.leave();
    assert!(!em.refresh(false));
}

#[test]
fn test_edit_box_keeps_enter() {
    let mut em = EditBox::new(Viewport::new(2, 3, 3, 20)).unwrap();
    em.set_field("Notes:");
    em.focus();
    let (out, cell) = em.handle_event(key(KeyCode::Char('x'))).unwrap();
    assert!(out.is_none());
    assert_eq!(cell, (9, 3));
    let (out, cell) = em.handle_event(key(KeyCode::Enter)).unwrap();
    assert!(out.is_none());
    assert_eq!(cell, (8, 4));
    let e = key(KeyCode::BackTab);
    let (out, _) = em.handle_event(e).unwrap();
    assert!(out == Some(e));
    assert!(em.refresh(false));
}

#[test]
fn test_head_line() {
    let d = CalDate::new(2021, 5, 6).unwrap();
    let p = (CalDate::new(2021, 4, 1).unwrap(), CalDate::new(2022, 3, 31).unwrap());
    let mut h = HeadLine::new(Viewport::new(1, 1, 1, 40), d, p).unwrap();
    let s = h.to_string();
    assert!(s.contains("01-Apr-21"));
    assert!(s.contains("31-Mar-22"));
    assert!(s.contains("06-May-21"));
    assert!(h.refresh(Received::Empty, false).unwrap() == false);
    assert!(h.refresh(Received::Other, true).unwrap() == true);
    let d2 = CalDate::new(2021, 5, 7).unwrap();
    assert!(h.refresh(Received::Date(d2), false).unwrap());
    assert!(h.to_string().contains("07-May-21"));
    assert!(h.refresh(Received::Disconnected, false).is_err());
}

#[test]
fn test_element_dispatch() {
    let mut em = Element::Span(Span::new(Viewport::new(3, 4, 1, 10), "x").unwrap());
    assert!(em.contain_cell(3, 4));
    assert!(!em.contain_cell(3, 5));
    assert!(em.focus().is_none());
    assert!(em.refresh(Received::Empty, true).unwrap());
    let e = key(KeyCode::Up);
    let (out, cell) = em.handle_event(e).unwrap();
    assert!(out == Some(e));
    assert!(cell.is_none());
    let mut el = Element::EditLine(EditLine::new(Viewport::new(5, 6, 1, 10)).unwrap());
    assert!(el.focus() == Some((5, 6)));
    let (out, cell) = el.handle_event(key(KeyCode::Char('q'))).unwrap();
    assert!(out.is_none());
    assert!(cell == Some((6, 6)));
    el.leave();
}

#[test]
fn test_new_workspace_focus_moves() {
    let mut w = NewWorkspace::new(Viewport::new(1, 1, 30, 80)).unwrap();
    // the workspace name takes the focus first
    let acts = w.focus();
    assert!(acts == vec![Cursor::MoveTo(6, 4)]);
    // Tab goes to the commodity name
    let (out, acts) = w.handle_event(key(KeyCode::Tab)).unwrap();
    assert!(out.is_none());
    assert!(acts == vec![Cursor::MoveTo(6, 4), Cursor::MoveTo(18, 8)]);
    // Back-tab comes back
    let (out, acts) = w.handle_event(key(KeyCode::BackTab)).unwrap();
    assert!(out.is_none());
    assert!(acts == vec![Cursor::MoveTo(18, 8), Cursor::MoveTo(6, 4)]);
    // typing goes to the focused line
    let (out, acts) = w.handle_event(key(KeyCode::Char('w'))).unwrap();
    assert!(out.is_none());
    assert!(acts == vec![Cursor::MoveTo(7, 4)]);
    // Escape goes to the border and hides the cursor
    let (out, acts) = w.handle_event(key(KeyCode::Esc)).unwrap();
    assert!(out.is_none());
    assert!(acts == vec![Cursor::MoveTo(7, 4), Cursor::Hide, Cursor::Hide]);
    // other keys are handed on from the border
    let e = key(KeyCode::Char('q'));
    let (out, acts) = w.handle_event(e).unwrap();
    assert!(out == Some(e));
    assert!(acts.is_empty());
    // the border wraps around to the workspace name
    let (out, acts) = w.handle_event(key(KeyCode::Tab)).unwrap();
    assert!(out.is_none());
    assert!(acts == vec![Cursor::MoveTo(7, 4)]);
}

#[test]
fn test_new_workspace_submit() {
    let mut w = NewWorkspace::new(Viewport::new(1, 1, 30, 80)).unwrap();
    for _ in 0..5 {
        w.handle_event(key(KeyCode::Tab)).unwrap();
    }
    // the notes box keeps Tab, and hands Enter with alt on
    let (out, _) = w.handle_event(key(KeyCode::Tab)).unwrap();
    assert!(out.is_none());
    let alt_enter = Event::Key { code: KeyCode::Enter, modifiers: KeyModifiers { bits: 4 } };
    let (out, _) = w.handle_event(alt_enter).unwrap();
    assert!(out.is_none());
    // the button has the focus: Enter submits, and the page keeps it
    let (out, acts) = w.handle_event(key(KeyCode::Enter)).unwrap();
    assert!(out.is_none());
    assert!(acts.is_empty());
}

#[test]
fn test_new_workspace_drawing() {
    let mut w = NewWorkspace::new(Viewport::new(1, 1, 30, 80)).unwrap();
    let s = w.to_string();
    assert!(s.starts_with(&move_to(0, 1)));
    assert!(s.contains(" Create new workspace "));
    assert!(s.contains("Enter default commodity details"));
    assert!(s.contains("Name    :"));
    assert!(s.contains("Notes   :"));
    let drawn = w.refresh(true).unwrap();
    assert!(drawn.contains("Enter default commodity details"));
    let drawn = w.refresh(false).unwrap();
    assert!(drawn.is_empty());
    w.leave();
    let mut layer = Layer::NewWorkspace(NewWorkspace::new(Viewport::new(1, 1, 30, 80)).unwrap());
    assert!(layer.focus() == vec![Cursor::MoveTo(6, 4)]);
    assert!(!layer.to_string().is_empty());
    let (out, _) = layer.handle_event(key(KeyCode::Tab)).unwrap();
    assert!(out.is_none());
    assert!(layer.refresh(false).unwrap().is_empty() == false);
    layer.leave();
}

#[test]
fn test_page_url_and_quit_key() {
    assert_eq!(PageNewWorkspace::to_url(), "/workspace/new");
    assert!(PageNewWorkspace::new(Viewport::new(0, 0, 10, 10)).is_ok());
    assert_eq!(handle_key_event(key(KeyCode::Char('q'))), 1);
    assert_eq!(handle_key_event(key(KeyCode::Char('w'))), 0);
    assert_eq!(handle_key_event(Event::Resize { cols: 1, rows: 1 }), 0);
}

#[test]
fn test_page_can_handle() {
    let w = NewWorkspace::new(Viewport::new(1, 1, 30, 80)).unwrap();
    assert!(w.can_handle(&key(KeyCode::Char('a'))));
    assert!(w.can_handle(&key(KeyCode::Tab)));
    // a control character cannot be shown
    assert!(!w.can_handle(&key(KeyCode::Char('\u{1}'))));
    let vp = Viewport::new(1, 1, 3, 10);
    assert!(vp.can_follow_cursor((4, 1)));
    assert!(vp.cursor_fits());
    let simple = Button::new(Viewport::new(2, 2, 1, 6), "ok", ButtonType::Simple).unwrap();
    assert!(!simple.can_handle(&key(KeyCode::Enter)));
    assert!(simple.can_handle(&key(KeyCode::Tab)));
}
