//! The text that an edit element holds, with a cursor, kept in a `ropey`
//! rope, and how keys edit it.
use vstd::prelude::*;

use crate::errors::Result;
use crate::event::{self, Event, KeyCode, KeyModifiers};
use crate::text::{self, char_width_spec, is_control};

verus! {

#[verifier::external_type_specification]
#[verifier::external_body]
pub struct ExRope(ropey::Rope);

/// The characters that a rope holds.
pub uninterp spec fn rope_chars(r: ropey::Rope) -> Seq<char>;

// ---------------------------------------------------------------------
// Lines, as ropey's documentation defines them: a line starts at the
// start of the text and right after each line break; the break belongs to
// the line it ends. The breaks are LF, VT, FF, CR, NEL, LS and PS, and CR
// LF together count as one break.

/// A line break character.
pub open spec fn is_line_break(c: char) -> bool {
    ||| c == '\n'
    ||| c == '\u{b}'
    ||| c == '\u{c}'
    ||| c == '\r'
    ||| c == '\u{85}'
    ||| c == '\u{2028}'
    ||| c == '\u{2029}'
}

/// A line starts at position `k` (after the first): a line break ends
/// there, and it is not a CR followed by LF.
pub open spec fn starts_line(t: Seq<char>, k: int) -> bool {
    &&& 0 < k <= t.len()
    &&& is_line_break(t[k - 1])
    &&& !(t[k - 1] == '\r' && k < t.len() && t[k] == '\n')
}

/// The line of position `i`: how many lines start at positions 1 to `i`.
pub open spec fn line_of(t: Seq<char>, i: int) -> nat
    decreases i,
{
    if i <= 0 {
        0
    } else {
        line_of(t, i - 1) + if starts_line(t, i) {
            1nat
        } else {
            0nat
        }
    }
}

/// The number of lines: one more than there are line breaks.
pub open spec fn count_lines(t: Seq<char>) -> nat {
    line_of(t, t.len() as int) + 1
}

/// The position where line `l` starts; the end of the text for
/// `l == count_lines(t)`.
pub open spec fn line_begin(t: Seq<char>, l: int) -> int {
    if l <= 0 {
        0
    } else if l >= count_lines(t) {
        t.len() as int
    } else {
        choose|k: int| starts_line(t, k) && line_of(t, k) == l
    }
}

/// The characters of line `l`, its line break included.
pub open spec fn line_text(t: Seq<char>, l: int) -> Seq<char> {
    t.subrange(line_begin(t, l), line_begin(t, l + 1))
}

proof fn lemma_line_of_mono(t: Seq<char>, a: int, b: int)
    requires
        a <= b,
    ensures
        line_of(t, a) <= line_of(t, b),
    decreases b - a,
{
    if a < b {
        lemma_line_of_mono(t, a, b - 1);
    }
}

proof fn lemma_line_of_strict(t: Seq<char>, a: int, b: int)
    requires
        a < b,
        starts_line(t, b),
    ensures
        line_of(t, a) < line_of(t, b),
{
    lemma_line_of_mono(t, a, b - 1);
}

proof fn lemma_line_exists(t: Seq<char>, n: int, l: int)
    requires
        1 <= l <= line_of(t, n),
    ensures
        exists|k: int| 0 < k <= n && starts_line(t, k) && line_of(t, k) == l,
    decreases n,
{
    if n > 0 {
        if l <= line_of(t, n - 1) {
            lemma_line_exists(t, n - 1, l);
            let k = choose|k: int| 0 < k <= n - 1 && starts_line(t, k) && line_of(t, k) == l;
            assert(0 < k <= n && starts_line(t, k) && line_of(t, k) == l);
        } else {
            assert(starts_line(t, n) && line_of(t, n) == l);
        }
    }
}

/// A position within the text lies in one of its lines, and no more
/// lines start before it than there are positions.
pub proof fn lemma_line_of_bound(t: Seq<char>, i: int)
    requires
        0 <= i <= t.len(),
    ensures
        line_of(t, i) < count_lines(t),
        line_of(t, i) <= i,
    decreases i,
{
    lemma_line_of_mono(t, i, t.len() as int);
    if i > 0 {
        lemma_line_of_bound(t, i - 1);
    }
}

/// Line `l` starts at a line start, and that position lies in line `l`.
proof fn lemma_line_begin(t: Seq<char>, l: int)
    requires
        0 <= l < count_lines(t),
    ensures
        0 <= line_begin(t, l) <= t.len(),
        line_of(t, line_begin(t, l)) == l,
        l > 0 ==> starts_line(t, line_begin(t, l)),
{
    if l > 0 {
        lemma_line_exists(t, t.len() as int, l);
    }
}

/// Where a line starts, the line of that position starts.
proof fn lemma_begin_of_start(t: Seq<char>, k: int)
    requires
        starts_line(t, k),
    ensures
        line_of(t, k) >= 1,
        line_begin(t, line_of(t, k) as int) == k,
{
    lemma_line_of_strict(t, 0, k);
    let l = line_of(t, k) as int;
    lemma_line_of_bound(t, k);
    lemma_line_begin(t, l);
    let b = line_begin(t, l);
    if b < k {
        lemma_line_of_strict(t, b, k);
    } else if b > k {
        lemma_line_of_strict(t, k, b);
    }
}

/// Lines start in order, and all but the last are not empty.
proof fn lemma_begin_increasing(t: Seq<char>, l: int)
    requires
        0 <= l < count_lines(t),
    ensures
        0 <= line_begin(t, l) <= line_begin(t, l + 1) <= t.len(),
        l + 1 < count_lines(t) ==> line_begin(t, l) < line_begin(t, l + 1),
{
    lemma_line_begin(t, l);
    if l + 1 < count_lines(t) {
        lemma_line_begin(t, l + 1);
        if line_begin(t, l + 1) <= line_begin(t, l) {
            lemma_line_of_mono(t, line_begin(t, l + 1), line_begin(t, l));
        }
    }
}

/// A position lies between the start of its line and the start of the
/// next one.
proof fn lemma_position_in_line(t: Seq<char>, c: int)
    requires
        0 <= c <= t.len(),
    ensures
        line_of(t, c) < count_lines(t),
        line_begin(t, line_of(t, c) as int) <= c,
        line_of(t, c) + 1 < count_lines(t) ==> c < line_begin(t, line_of(t, c) as int + 1),
        c <= line_begin(t, line_of(t, c) as int + 1),
{
    let l = line_of(t, c) as int;
    lemma_line_of_bound(t, c);
    lemma_line_begin(t, l);
    let b = line_begin(t, l);
    if b > c {
        lemma_line_of_strict(t, c, b);
    }
    if l + 1 < count_lines(t) {
        lemma_line_begin(t, l + 1);
        let b1 = line_begin(t, l + 1);
        if b1 <= c {
            lemma_line_of_mono(t, b1, c);
        }
    }
}

// ---------------------------------------------------------------------
// What ropey does; each call keeps to the rope's documentation and source.

/// Calls `ropey::Rope::from_str`: a rope of the characters of `s`.
#[verifier::external_body]
fn rope_from_str(s: &str) -> (r: ropey::Rope)
    ensures
        rope_chars(r) == s@,
{
    ropey::Rope::from_str(s)
}

/// Calls `ropey::Rope::from_reader` on a byte slice: it fails exactly on
/// bytes that are not UTF-8 (reading a slice never fails), and otherwise
/// holds the decoded characters.
#[verifier::external_body]
pub(crate) fn rope_from_bytes(data: &[u8]) -> (r: Option<ropey::Rope>)
    ensures
        r is Some <==> vstd::utf8::valid_utf8(data@),
        r matches Some(x) ==> rope_chars(x) == vstd::utf8::decode_utf8(data@),
{
    ropey::Rope::from_reader(data).ok()
}

/// Calls `ropey::Rope::len_chars`.
#[verifier::external_body]
fn rope_len_chars(r: &ropey::Rope) -> (n: usize)
    ensures
        n == rope_chars(*r).len(),
{
    r.len_chars()
}

/// Calls `ropey::Rope::len_lines`: one more than the line breaks.
#[verifier::external_body]
pub(crate) fn rope_len_lines(r: &ropey::Rope) -> (n: usize)
    ensures
        n == count_lines(rope_chars(*r)),
{
    r.len_lines()
}

/// Calls `ropey::Rope::char_to_line`, which counts the line breaks before
/// the char and panics past the end.
#[verifier::external_body]
fn rope_char_to_line(r: &ropey::Rope, i: usize) -> (l: usize)
    requires
        i <= rope_chars(*r).len(),
    ensures
        l == line_of(rope_chars(*r), i as int),
{
    r.char_to_line(i)
}

/// Calls `ropey::Rope::line_to_char`: where line `l` starts (the end for
/// one past the last line); it panics beyond.
#[verifier::external_body]
fn rope_line_to_char(r: &ropey::Rope, l: usize) -> (i: usize)
    requires
        l <= count_lines(rope_chars(*r)),
    ensures
        i == line_begin(rope_chars(*r), l as int),
{
    r.line_to_char(l)
}

/// Calls `ropey::Rope::line` and collects its chars: the characters of
/// line `l`, its line break included. It panics past the last line.
#[verifier::external_body]
pub(crate) fn rope_line(r: &ropey::Rope, l: usize) -> (v: Vec<char>)
    requires
        l < count_lines(rope_chars(*r)),
    ensures
        v@ == line_text(rope_chars(*r), l as int),
{
    r.line(l).chars().collect()
}

/// Calls `ropey::Rope::insert_char`, which panics past the end.
#[verifier::external_body]
fn rope_insert_char(r: &mut ropey::Rope, i: usize, c: char)
    requires
        i <= rope_chars(*old(r)).len(),
    ensures
        rope_chars(*final(r)) == rope_chars(*old(r)).insert(i as int, c),
{
    r.insert_char(i, c)
}

/// Calls `ropey::Rope::remove` on `a..b`, which panics unless
/// `a <= b <= len`.
#[verifier::external_body]
fn rope_remove(r: &mut ropey::Rope, a: usize, b: usize)
    requires
        a <= b <= rope_chars(*old(r)).len(),
    ensures
        rope_chars(*final(r)) == rope_chars(*old(r)).subrange(0, a as int) + rope_chars(
            *old(r),
        ).subrange(b as int, rope_chars(*old(r)).len() as int),
{
    r.remove(a..b)
}

/// Calls `ropey::Rope::to_string`.
#[verifier::external_body]
pub(crate) fn rope_to_string(r: &ropey::Rope) -> (s: String)
    ensures
        s@ == rope_chars(*r),
{
    r.to_string()
}

/// Calls `ropey::Rope::clone`: a rope of the same characters.
#[verifier::external_body]
fn rope_clone(r: &ropey::Rope) -> (c: ropey::Rope)
    ensures
        rope_chars(c) == rope_chars(*r),
{
    r.clone()
}

// ---------------------------------------------------------------------
// Edit events.

/// What a key does to the text.
#[derive(Clone, Copy, Debug, PartialEq, Eq, Structural)]
pub enum EditEvent {
    Noop,
    Esc,
    Backspace,
    Enter,
    Left,
    Right,
    Up,
    Down,
    Home,
    End,
    PageUp,
    PageDown,
    Tab,
    BackTab,
    Delete,
    Insert,
    F(u8, KeyModifiers),
    Char(char, KeyModifiers),
}

/// The edit that an event asks for: keys without modifiers edit, control
/// `[` is escape, anything else does nothing.
pub open spec fn edit_event_of(e: Event) -> EditEvent {
    let m = event::modifiers_of(e);
    let plain = m.bits == 0;
    let ctrl = m.bits & event::CONTROL == event::CONTROL;
    match e {
        Event::Key { code, modifiers } => match code {
            KeyCode::Backspace if plain => EditEvent::Backspace,
            KeyCode::Enter if plain => EditEvent::Enter,
            KeyCode::Left if plain => EditEvent::Left,
            KeyCode::Right if plain => EditEvent::Right,
            KeyCode::Up if plain => EditEvent::Up,
            KeyCode::Down if plain => EditEvent::Down,
            KeyCode::Home if plain => EditEvent::Home,
            KeyCode::End if plain => EditEvent::End,
            KeyCode::PageUp if plain => EditEvent::PageUp,
            KeyCode::PageDown if plain => EditEvent::PageDown,
            KeyCode::Tab if plain => EditEvent::Tab,
            KeyCode::BackTab if plain => EditEvent::BackTab,
            KeyCode::Delete if plain => EditEvent::Delete,
            KeyCode::F(f) if plain => EditEvent::F(f, modifiers),
            KeyCode::Char(ch) if ch == '[' && ctrl => EditEvent::Esc,
            KeyCode::Char(ch) if plain => EditEvent::Char(ch, modifiers),
            KeyCode::Esc if plain => EditEvent::Esc,
            _ => EditEvent::Noop,
        },
        _ => EditEvent::Noop,
    }
}

impl EditEvent {
    /// The edit that `evnt` asks for.
    pub fn from(evnt: Event) -> (r: EditEvent)
        ensures
            r == edit_event_of(evnt),
    {
        let m = evnt.to_modifier();
        let plain = m.is_empty();
        let ctrl = m.contains(event::CONTROL);
        match evnt {
            Event::Key { code, modifiers } => match code {
                KeyCode::Backspace if plain => EditEvent::Backspace,
                KeyCode::Enter if plain => EditEvent::Enter,
                KeyCode::Left if plain => EditEvent::Left,
                KeyCode::Right if plain => EditEvent::Right,
                KeyCode::Up if plain => EditEvent::Up,
                KeyCode::Down if plain => EditEvent::Down,
                KeyCode::Home if plain => EditEvent::Home,
                KeyCode::End if plain => EditEvent::End,
                KeyCode::PageUp if plain => EditEvent::PageUp,
                KeyCode::PageDown if plain => EditEvent::PageDown,
                KeyCode::Tab if plain => EditEvent::Tab,
                KeyCode::BackTab if plain => EditEvent::BackTab,
                KeyCode::Delete if plain => EditEvent::Delete,
                KeyCode::F(f) if plain => EditEvent::F(f, modifiers),
                KeyCode::Char(ch) if ch == '[' && ctrl => EditEvent::Esc,
                KeyCode::Char(ch) if plain => EditEvent::Char(ch, modifiers),
                KeyCode::Esc if plain => EditEvent::Esc,
                _ => EditEvent::Noop,
            },
            _ => EditEvent::Noop,
        }
    }

    /// The modifiers that the edit carries.
    pub fn to_modifiers(evnt: &EditEvent) -> (r: KeyModifiers)
        ensures
            r == match *evnt {
                EditEvent::F(_, m) => m,
                EditEvent::Char(_, m) => m,
                _ => KeyModifiers { bits: 0 },
            },
    {
        match evnt {
            EditEvent::F(_, modifiers) => *modifiers,
            EditEvent::Char(_, modifiers) => *modifiers,
            _ => KeyModifiers::empty(),
        }
    }
}

// ---------------------------------------------------------------------
// The effect of an edit.

/// The position just past the visible end of the line of `c`: before its
/// trailing LF, CR LF or LF CR.
pub open spec fn line_last(t: Seq<char>, c: int) -> int {
    let l = line_of(t, c) as int;
    let line = line_text(t, l);
    let n = line.len() as int;
    let k: int = if n >= 2 && ((line[n - 1] == '\n' && line[n - 2] == '\r') || (line[n - 1] == '\r'
        && line[n - 2] == '\n')) {
        2
    } else if n >= 1 && line[n - 1] == '\n' {
        1
    } else {
        0
    };
    line_begin(t, l) + n - k
}

/// The text and cursor after edit `e` of text `t` with the cursor at `c`.
pub open spec fn edit_step(t: Seq<char>, c: int, e: EditEvent) -> (Seq<char>, int) {
    let l = line_of(t, c) as int;
    let start = line_begin(t, l);
    match e {
        EditEvent::Char(ch, _) => (t.insert(c, ch), c + 1),
        EditEvent::Backspace => if c == 0 {
            (t, c)
        } else {
            (t.subrange(0, c - 1) + t.subrange(c, t.len() as int), c - 1)
        },
        EditEvent::Enter => (t.insert(c, '\n'), c + 1),
        EditEvent::Left => if start == c {
            (t, c)
        } else {
            (t, c - 1)
        },
        EditEvent::Right => if line_last(t, c) == c {
            (t, c)
        } else {
            (t, c + 1)
        },
        EditEvent::Up => if c == 0 || l == 0 {
            (t, c)
        } else {
            let plen = line_text(t, l - 1).len() as int;
            let col = if plen - 1 < c - start {
                plen - 1
            } else {
                c - start
            };
            (t, line_begin(t, l - 1) + col)
        },
        EditEvent::Down => if l + 1 >= count_lines(t) {
            (t, c)
        } else {
            let nlen = line_text(t, l + 1).len() as int;
            let col = if nlen > 0 {
                if nlen - 1 < c - start {
                    nlen - 1
                } else {
                    c - start
                }
            } else {
                0
            };
            (t, line_begin(t, l + 1) + col)
        },
        EditEvent::Home => (t, start),
        EditEvent::End => (t, line_last(t, c)),
        EditEvent::Tab => (t.insert(c, '\t'), c + 1),
        EditEvent::Delete => if c < line_last(t, c) {
            (t.subrange(0, c) + t.subrange(c + 1, t.len() as int), c)
        } else {
            (t, c)
        },
        _ => (t, c),
    }
}

/// A backspace right after typing a character, Enter or Tab takes it
/// back: the text and the cursor are as they were.
pub proof fn lemma_backspace_undoes_insert(t: Seq<char>, c: int, e: EditEvent)
    requires
        0 <= c <= t.len(),
        e is Char || e is Enter || e is Tab,
    ensures
        edit_step(edit_step(t, c, e).0, edit_step(t, c, e).1, EditEvent::Backspace) == (t, c),
{
    let t1 = edit_step(t, c, e).0;
    let c1 = edit_step(t, c, e).1;
    assert(c1 == c + 1);
    assert(t1.subrange(0, c1 - 1) + t1.subrange(c1, t1.len() as int) =~= t);
}

/// Left moves one character back within a line: where the cursor is not
/// at the start of its line (not at the start of the text and not right
/// after a line break), the text stays and the cursor moves to the
/// previous position.
pub proof fn lemma_left_moves_back_one(t: Seq<char>, c: int)
    requires
        0 < c <= t.len(),
        !starts_line(t, c),
    ensures
        edit_step(t, c, EditEvent::Left) == (t, c - 1),
{
    let l = line_of(t, c) as int;
    lemma_position_in_line(t, c);
    if l > 0 {
        lemma_line_begin(t, l);
    }
}

/// Left then Right inside a line comes back: where the cursor is not at
/// the start of its line and not past the line's visible end, Left and
/// then Right leave the text and the cursor as they were.
pub proof fn lemma_left_then_right_returns(t: Seq<char>, c: int)
    requires
        0 < c <= t.len(),
        !starts_line(t, c),
        c <= line_last(t, c),
    ensures
        edit_step(edit_step(t, c, EditEvent::Left).0, edit_step(t, c, EditEvent::Left).1, EditEvent::Right)
            == (t, c),
{
    lemma_left_moves_back_one(t, c);
    assert(line_of(t, c) == line_of(t, c - 1));
    assert(line_last(t, c - 1) == line_last(t, c));
}

/// At the start of a line Left does nothing: the text and the cursor stay.
pub proof fn lemma_left_stops_at_line_start(t: Seq<char>, c: int)
    requires
        0 <= c <= t.len(),
        c == 0 || starts_line(t, c),
    ensures
        edit_step(t, c, EditEvent::Left) == (t, c),
{
    if c > 0 {
        lemma_begin_of_start(t, c);
    }
}

/// The edits that leave the text alone and hand the event back.
pub open spec fn passes_on(e: EditEvent) -> bool {
    match e {
        EditEvent::F(_, _) | EditEvent::BackTab | EditEvent::Insert | EditEvent::PageUp
        | EditEvent::PageDown | EditEvent::Noop | EditEvent::Esc => true,
        _ => false,
    }
}

/// The width on the screen of `s`: 4 columns for a tab, the display width
/// for any other character.
pub open spec fn cols_width(s: Seq<char>) -> nat
    decreases s.len(),
{
    if s.len() == 0 {
        0
    } else {
        cols_width(s.drop_last()) + if s.last() == '\t' {
            4nat
        } else {
            match char_width_spec(s.last()) {
                Some(w) => w,
                None => 0,
            }
        }
    }
}

/// The part of the cursor's line before the cursor.
pub open spec fn before_cursor(t: Seq<char>, c: int) -> Seq<char> {
    t.subrange(line_begin(t, line_of(t, c) as int), c)
}

/// The cursor can be shown: the part of its line before it holds no
/// control character but tabs, which have no display width.
pub open spec fn shows(t: Seq<char>, c: int) -> bool {
    forall|k: int|
        0 <= k < before_cursor(t, c).len() ==> (#[trigger] before_cursor(t, c)[k] == '\t'
            || !is_control(before_cursor(t, c)[k]))
}

/// Where the cursor appears: (column, row).
pub open spec fn cursor_cell(t: Seq<char>, c: int) -> (nat, nat) {
    (cols_width(before_cursor(t, c)), line_of(t, c))
}

/// `s` with every tab replaced by four spaces.
pub open spec fn expand_tabs(s: Seq<char>) -> Seq<char>
    decreases s.len(),
{
    if s.len() == 0 {
        s
    } else {
        expand_tabs(s.drop_last()) + if s.last() == '\t' {
            seq![' ', ' ', ' ', ' ']
        } else {
            seq![s.last()]
        }
    }
}

// ---------------------------------------------------------------------
// The buffer.

/// Settings of a buffer.
#[derive(Clone, Copy)]
struct Config {
    tabstop: u16,
}

impl Config {
    fn default() -> (r: Config)
        ensures
            r.tabstop == 4,
    {
        Config { tabstop: 4 }
    }
}

/// Where the cursor appears after an edit, and the event when the edit
/// hands it back.
pub struct EditRes {
    pub col_at: usize,
    pub row_at: usize,
    pub evnt: Option<Event>,
}

impl EditRes {
    fn new(col_at: usize, row_at: usize, evnt: Option<Event>) -> (r: EditRes)
        ensures
            r.col_at == col_at && r.row_at == row_at && r.evnt == evnt,
    {
        EditRes { col_at, row_at, evnt }
    }
}

/// Text with a cursor, a position between characters.
pub struct Buffer {
    buf: ropey::Rope,
    cursor: usize,
    config: Config,
}

impl Buffer {
    /// The characters of the buffer.
    pub closed spec fn text(&self) -> Seq<char> {
        rope_chars(self.buf)
    }

    /// The cursor's position.
    pub closed spec fn cursor_pos(&self) -> int {
        self.cursor as int
    }

    /// The cursor's position fits a `usize`.
    pub proof fn lemma_cursor_fits(&self)
        ensures
            0 <= self.cursor_pos() <= usize::MAX,
    {
    }

    /// The cursor lies within the text.
    pub open spec fn wf(&self) -> bool {
        0 <= self.cursor_pos() <= self.text().len()
    }

    /// The text and the cursor after the edit that `evnt` asks for.
    pub open spec fn after(&self, evnt: Event) -> (Seq<char>, int) {
        edit_step(self.text(), self.cursor_pos(), edit_event_of(evnt))
    }

    /// `handle_event` runs to its end: the cursor after the edit can be
    /// shown (a backspace at the start of the text only reports (0, 0)),
    /// and the text is far from the limits of `usize`.
    pub open spec fn can_take(&self, evnt: Event) -> bool {
        &&& self.wf()
        &&& self.text().len() < usize::MAX / 8
        &&& (edit_event_of(evnt) == EditEvent::Backspace && self.cursor_pos() == 0) || shows(
            self.after(evnt).0,
            self.after(evnt).1,
        )
    }

    /// A copy of the buffer.
    pub fn clone(&self) -> (r: Buffer)
        ensures
            r.text() == self.text(),
            r.cursor_pos() == self.cursor_pos(),
    {
        Buffer { buf: rope_clone(&self.buf), cursor: self.cursor, config: self.config }
    }

    /// An empty buffer.
    pub fn default() -> (r: Buffer)
        ensures
            r.text() == Seq::<char>::empty(),
            r.cursor_pos() == 0,
    {
        proof {
            reveal_strlit("");
        }
        Buffer { buf: rope_from_str(""), cursor: 0, config: Config::default() }
    }

    /// A buffer of the UTF-8 text in `data`, with the cursor at its start;
    /// an `IOError` when `data` is not UTF-8.
    pub fn from_reader(data: &[u8]) -> (r: Result<Buffer>)
        ensures
            match r {
                Ok(b) => vstd::utf8::valid_utf8(data@) && b.text() == vstd::utf8::decode_utf8(
                    data@,
                ) && b.cursor_pos() == 0,
                Err(e) => !vstd::utf8::valid_utf8(data@) && e is IOError,
            },
    {
        match rope_from_bytes(data) {
            Some(buf) => Ok(Buffer { buf, cursor: 0, config: Config::default() }),
            None => Err(
                crate::errors::Error::IOError(text::str_to_string("stream did not contain valid UTF-8")),
            ),
        }
    }

    /// An empty buffer.
    pub fn empty() -> (r: Result<Buffer>)
        ensures
            r matches Ok(b) && b.text() == Seq::<char>::empty() && b.cursor_pos() == 0,
    {
        proof {
            reveal_strlit("");
        }
        Ok(Buffer { buf: rope_from_str(""), cursor: 0, config: Config::default() })
    }

    /// The text.
    pub fn to_string(&self) -> (r: String)
        ensures
            r@ == self.text(),
    {
        rope_to_string(&self.buf)
    }

    /// The lines from line `from` on, each with its tabs shown as four
    /// spaces.
    pub fn view_lines(&self, from: usize) -> (r: Vec<String>)
        requires
            from <= count_lines(self.text()),
        ensures
            r.deep_view() == Seq::new(
                (count_lines(self.text()) - from) as nat,
                |i: int| expand_tabs(line_text(self.text(), from + i)),
            ),
    {
        let n = rope_len_lines(&self.buf);
        let mut out: Vec<String> = Vec::new();
        let mut l: usize = from;
        while l < n
            invariant
                from <= l <= n,
                n == count_lines(self.text()),
                out.deep_view() == Seq::new(
                    (l - from) as nat,
                    |i: int| expand_tabs(line_text(self.text(), from + i)),
                ),
            decreases n - l,
        {
            let line = rope_line(&self.buf, l);
            let shown = expand_tabs_chars(&line);
            let ghost before = out.deep_view();
            let item = text::string_from_chars(shown.as_slice());
            out.push(item);
            assert(out.deep_view() =~= before.push(item@));
            assert(out.deep_view() =~= Seq::new(
                (l + 1 - from) as nat,
                |i: int| expand_tabs(line_text(self.text(), from + i)),
            ));
            l = l + 1;
        }
        out
    }

    /// Sets the cursor to `new_cursor` and gives where it appears.
    fn update_cursor(&mut self, new_cursor: usize) -> (r: (usize, usize))
        requires
            new_cursor <= old(self).text().len(),
            old(self).text().len() < usize::MAX / 4,
            shows(old(self).text(), new_cursor as int),
        ensures
            final(self).text() == old(self).text(),
            final(self).cursor_pos() == new_cursor,
            (r.0 as nat, r.1 as nat) == cursor_cell(old(self).text(), new_cursor as int),
    {
        let ghost t = rope_chars(self.buf);
        proof {
            lemma_position_in_line(t, new_cursor as int);
        }
        let row_at = rope_char_to_line(&self.buf, new_cursor);
        let start = rope_line_to_char(&self.buf, row_at);
        let col_at = new_cursor - start;
        let line = rope_line(&self.buf, row_at);
        proof {
            lemma_begin_increasing(t, row_at as int);
            assert(line@.subrange(0, col_at as int) =~= before_cursor(t, new_cursor as int));
        }
        let mut sum: usize = 0;
        let mut i: usize = 0;
        while i < col_at
            invariant
                i <= col_at <= line@.len(),
                col_at <= t.len(),
                t.len() < usize::MAX / 4,
                line@.subrange(0, col_at as int) == before_cursor(t, new_cursor as int),
                shows(t, new_cursor as int),
                sum == cols_width(line@.subrange(0, i as int)),
                sum <= 4 * i,
            decreases col_at - i,
        {
            let ch = line[i];
            assert(line@.subrange(0, i + 1).drop_last() =~= line@.subrange(0, i as int));
            assert(before_cursor(t, new_cursor as int)[i as int] == ch);
            if ch == '\t' {
                sum = sum + 4;
            } else {
                let w = match text::char_width(ch) {
                    Some(w) => w,
                    None => 0,
                };
                sum = sum + w;
            }
            i = i + 1;
        }
        self.cursor = new_cursor;
        (sum, row_at)
    }

    /// Carries out the edit `eevnt` on the text and gives the new cursor.
    fn apply(&mut self, eevnt: EditEvent) -> (r: usize)
        requires
            old(self).wf(),
            old(self).text().len() < usize::MAX / 8,
        ensures
            (final(self).text(), r as int) == edit_step(
                old(self).text(),
                old(self).cursor_pos(),
                eevnt,
            ),
            final(self).cursor_pos() == old(self).cursor_pos(),
            r <= final(self).text().len(),
            final(self).text().len() <= old(self).text().len() + 1,
    {
        let ghost t = rope_chars(self.buf);
        let cursr = self.cursor;
        proof {
            lemma_position_in_line(t, cursr as int);
        }
        let line_idx = rope_char_to_line(&self.buf, cursr);
        let start_idx = rope_line_to_char(&self.buf, line_idx);
        proof {
            lemma_begin_increasing(t, line_idx as int);
        }
        match eevnt {
            EditEvent::Char(ch, _) => {
                rope_insert_char(&mut self.buf, cursr, ch);
                cursr + 1
            },
            EditEvent::Backspace => {
                if cursr == 0 {
                    0
                } else {
                    rope_remove(&mut self.buf, cursr - 1, cursr);
                    cursr - 1
                }
            },
            EditEvent::Enter => {
                rope_insert_char(&mut self.buf, cursr, '\n');
                cursr + 1
            },
            EditEvent::Left => {
                if start_idx == cursr {
                    cursr
                } else {
                    cursr - 1
                }
            },
            EditEvent::Right => {
                let last = line_last_char(&self.buf, cursr);
                if last == cursr {
                    cursr
                } else {
                    proof {
                        lemma_last_line_end(t, cursr as int);
                    }
                    cursr + 1
                }
            },
            EditEvent::Up => {
                if cursr == 0 || line_idx == 0 {
                    cursr
                } else {
                    let pline = rope_line(&self.buf, line_idx - 1);
                    proof {
                        lemma_begin_increasing(t, line_idx - 1);
                    }
                    let col_at = if pline.len() - 1 < cursr - start_idx {
                        pline.len() - 1
                    } else {
                        cursr - start_idx
                    };
                    rope_line_to_char(&self.buf, line_idx - 1) + col_at
                }
            },
            EditEvent::Down => {
                let n = rope_len_lines(&self.buf);
                if line_idx + 1 >= n {
                    cursr
                } else {
                    let nline = rope_line(&self.buf, line_idx + 1);
                    proof {
                        lemma_begin_increasing(t, line_idx + 1);
                    }
                    let col_at = if nline.len() > 0 {
                        if nline.len() - 1 < cursr - start_idx {
                            nline.len() - 1
                        } else {
                            cursr - start_idx
                        }
                    } else {
                        0
                    };
                    rope_line_to_char(&self.buf, line_idx + 1) + col_at
                }
            },
            EditEvent::Home => start_idx,
            EditEvent::End => line_last_char(&self.buf, cursr),
            EditEvent::Tab => {
                rope_insert_char(&mut self.buf, cursr, '\t');
                cursr + 1
            },
            EditEvent::Delete => {
                if cursr < line_last_char(&self.buf, cursr) {
                    rope_remove(&mut self.buf, cursr, cursr + 1);
                }
                cursr
            },
            _ => cursr,
        }
    }

    /// The number of characters in the text.
    pub fn len(&self) -> (r: usize)
        ensures
            r == self.text().len(),
    {
        rope_len_chars(&self.buf)
    }

    /// Whether `handle_event` can take `evnt`.
    pub fn accepts(&self, evnt: &Event) -> (r: bool)
        ensures
            r == self.can_take(*evnt),
    {
        if self.cursor > rope_len_chars(&self.buf) {
            return false;
        }
        if rope_len_chars(&self.buf) >= usize::MAX / 8 {
            return false;
        }
        self.can_handle(evnt)
    }

    /// Whether `handle_event` can take `evnt`: whether the cursor after
    /// the edit can be shown.
    pub fn can_handle(&self, evnt: &Event) -> (r: bool)
        requires
            self.wf(),
            self.text().len() < usize::MAX / 8,
        ensures
            r == self.can_take(*evnt),
    {
        let eevnt = EditEvent::from(*evnt);
        if eevnt == EditEvent::Backspace && self.cursor == 0 {
            return true;
        }
        let mut copy = self.clone();
        let new_cursor = copy.apply(eevnt);
        copy.shows_at(new_cursor)
    }

    /// Whether the cursor at `c` can be shown.
    fn shows_at(&self, c: usize) -> (r: bool)
        requires
            c <= self.text().len(),
        ensures
            r == shows(self.text(), c as int),
    {
        let ghost t = rope_chars(self.buf);
        proof {
            lemma_position_in_line(t, c as int);
        }
        let row = rope_char_to_line(&self.buf, c);
        let start = rope_line_to_char(&self.buf, row);
        let line = rope_line(&self.buf, row);
        proof {
            lemma_begin_increasing(t, row as int);
            assert(line@.subrange(0, (c - start) as int) =~= before_cursor(t, c as int));
        }
        let mut i: usize = 0;
        while i < c - start
            invariant
                t == self.text(),
                start <= c,
                i <= c - start <= line@.len(),
                line@.subrange(0, (c - start) as int) == before_cursor(t, c as int),
                forall|k: int|
                    0 <= k < i ==> (#[trigger] before_cursor(t, c as int)[k] == '\t' || !is_control(
                        before_cursor(t, c as int)[k],
                    )),
            decreases c - start - i,
        {
            let ch = line[i];
            assert(before_cursor(t, c as int)[i as int] == ch);
            if ch != '\t' {
                let cu = ch as u32;
                if cu < 0x20 || (0x7F <= cu && cu < 0xA0) {
                    assert(!(before_cursor(t, c as int)[i as int] == '\t' || !is_control(
                        before_cursor(t, c as int)[i as int],
                    )));
                    return false;
                }
            }
            i = i + 1;
        }
        true
    }

    /// Edits the text as the key asks (keys with modifiers, function keys,
    /// back-tab, page up and down and escape leave it and are handed back),
    /// and tells where the cursor now appears.
    pub fn handle_event(&mut self, evnt: Event) -> (r: Result<EditRes>)
        requires
            old(self).can_take(evnt),
        ensures
            final(self).wf(),
            (final(self).text(), final(self).cursor_pos()) == old(self).after(evnt),
            r matches Ok(res) && ({
                let eevnt = edit_event_of(evnt);
                &&& (eevnt == EditEvent::Backspace && old(self).cursor_pos() == 0 ==> res.col_at
                    == 0 && res.row_at == 0)
                &&& (!(eevnt == EditEvent::Backspace && old(self).cursor_pos() == 0) ==> (
                res.col_at as nat,
                res.row_at as nat,
            ) == cursor_cell(final(self).text(), final(self).cursor_pos()))
                &&& res.evnt == if passes_on(eevnt) {
                    Some(evnt)
                } else {
                    None
                }
            }),
    {
        let eevnt = EditEvent::from(evnt);
        if eevnt == EditEvent::Backspace && self.cursor == 0 {
            return Ok(EditRes::new(0, 0, None));
        }
        let passes = match eevnt {
            EditEvent::F(_, _) | EditEvent::BackTab | EditEvent::Insert | EditEvent::PageUp
            | EditEvent::PageDown | EditEvent::Noop | EditEvent::Esc => true,
            _ => false,
        };
        let new_cursor = self.apply(eevnt);
        let (col_at, row_at) = self.update_cursor(new_cursor);
        let out = if passes {
            Some(evnt)
        } else {
            None
        };
        Ok(EditRes::new(col_at, row_at, out))
    }
}

/// The last line ends at the end of the text with no line break: at the
/// end of the text, `line_last` is the end.
proof fn lemma_last_line_end(t: Seq<char>, c: int)
    requires
        0 <= c <= t.len(),
        line_last(t, c) != c,
        line_last(t, c) <= t.len(),
        line_begin(t, line_of(t, c) as int) <= c,
        c <= line_begin(t, line_of(t, c) as int + 1),
    ensures
        c < t.len(),
{
    if c == t.len() {
        let l = line_of(t, c) as int;
        lemma_line_of_bound(t, c);
        lemma_begin_increasing(t, l);
        let start = line_begin(t, l);
        let n = t.len() - start;
        assert(line_begin(t, l + 1) == t.len());
        let line = line_text(t, l);
        assert(line.len() == n);
        if n >= 1 && t[t.len() - 1] == '\n' {
            assert(starts_line(t, t.len() as int));
            lemma_begin_of_start(t, t.len() as int);
        }
        if n >= 2 && t[t.len() - 1] == '\r' && t[t.len() - 2] == '\n' {
            assert(starts_line(t, t.len() - 1));
            lemma_line_of_strict(t, t.len() - 2, t.len() - 1);
            lemma_line_begin(t, l);
            lemma_line_of_mono(t, start, t.len() - 2);
            lemma_line_of_mono(t, t.len() - 1, t.len() as int);
        }
        assert(line[n - 1] == t[t.len() - 1]);
    }
}

/// The position just past the visible end of the line of `cursor`.
fn line_last_char(buf: &ropey::Rope, cursor: usize) -> (r: usize)
    requires
        cursor <= rope_chars(*buf).len(),
        rope_chars(*buf).len() <= usize::MAX,
    ensures
        r == line_last(rope_chars(*buf), cursor as int),
        line_begin(rope_chars(*buf), line_of(rope_chars(*buf), cursor as int) as int) <= r <= rope_chars(
            *buf,
        ).len(),
{
    let ghost t = rope_chars(*buf);
    proof {
        lemma_position_in_line(t, cursor as int);
    }
    let line_idx = rope_char_to_line(buf, cursor);
    let start_idx = rope_line_to_char(buf, line_idx);
    let chars = rope_line(buf, line_idx);
    proof {
        lemma_begin_increasing(t, line_idx as int);
    }
    let len = chars.len();
    let n: usize = if len >= 2 && ((chars[len - 1] == '\n' && chars[len - 2] == '\r') || (chars[len
        - 1] == '\r' && chars[len - 2] == '\n')) {
        2
    } else if len >= 1 && chars[len - 1] == '\n' {
        1
    } else {
        0
    };
    start_idx + len - n
}

/// Replaces every tab with four spaces.
fn expand_tabs_chars(s: &Vec<char>) -> (r: Vec<char>)
    ensures
        r@ == expand_tabs(s@),
{
    let mut out: Vec<char> = Vec::new();
    let n = s.len();
    let mut i: usize = 0;
    assert(s@.take(0) =~= Seq::<char>::empty());
    while i < n
        invariant
            i <= n,
            n == s@.len(),
            out@ == expand_tabs(s@.take(i as int)),
        decreases n - i,
    {
        assert(s@.take(i + 1).drop_last() =~= s@.take(i as int));
        if s[i] == '\t' {
            out.push(' ');
            out.push(' ');
            out.push(' ');
            out.push(' ');
        } else {
            out.push(s[i]);
        }
        assert(out@ =~= expand_tabs(s@.take(i + 1)));
        i = i + 1;
    }
    assert(s@.take(n as int) =~= s@);
    out
}

} // verus!
