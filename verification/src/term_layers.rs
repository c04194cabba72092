//! Layers of the screen: pages made of elements, with a focus that moves
//! between the elements.
use vstd::prelude::*;

use crate::ansi::{self, move_to_seq, styled_on_seq};
use crate::errors::Result;
use crate::event::{key_code_of, modifiers_of, Event, KeyCode};
use crate::term_elements::{
    self as te, border_fits, Border, Button, ButtonType, EditBox, EditLine, Element, Received, Span,
    Viewport, BG_LAYER, FG_SECTION,
};
use crate::text::{self, repeat_seq};

verus! {

/// The order in which elements take the focus: the element in front has
/// it; tab moves to the next one, back-tab to the previous one.
pub struct TabOffsets(Vec<usize>);

/// The order after a tab: the front moves to the back.
pub open spec fn tab_spec(s: Seq<usize>) -> Seq<usize> {
    s.drop_first().push(s[0])
}

/// The order after a back-tab: the back moves to the front.
pub open spec fn back_tab_spec(s: Seq<usize>) -> Seq<usize> {
    seq![s.last()] + s.drop_last()
}

/// The order after the focus jumps to the element at position `i`: that
/// element moves to the front, the others keep their order.
pub open spec fn jump_spec(s: Seq<usize>, i: int) -> Seq<usize> {
    seq![s[i]] + s.remove(i)
}

/// Position `i` holds the first `x` of `s`.
pub open spec fn first_at(s: Seq<usize>, x: usize, i: int) -> bool {
    0 <= i < s.len() && s[i] == x && forall|k: int| 0 <= k < i ==> s[k] != x
}

impl View for TabOffsets {
    type V = Seq<usize>;

    closed spec fn view(&self) -> Seq<usize> {
        self.0@
    }
}

impl TabOffsets {
    /// The focus order `offs`, the first of them in front.
    pub fn new(offs: Vec<usize>) -> (r: TabOffsets)
        ensures
            r@ == offs@,
    {
        TabOffsets(offs)
    }

    /// The element that has the focus.
    pub fn current(&self) -> (r: usize)
        requires
            self@.len() > 0,
        ensures
            r == self@[0],
    {
        self.0[0]
    }

    /// Moves the focus to the next element; returns the element that had
    /// it.
    pub fn tab(&mut self) -> (r: usize)
        requires
            old(self)@.len() > 0,
        ensures
            r == old(self)@[0],
            final(self)@ == tab_spec(old(self)@),
    {
        let old_off = self.0.remove(0);
        self.0.push(old_off);
        assert(self.0@ =~= tab_spec(old(self)@));
        old_off
    }

    /// Moves the focus to the previous element; returns the element that
    /// had it.
    pub fn back_tab(&mut self) -> (r: usize)
        requires
            old(self)@.len() > 0,
        ensures
            r == old(self)@[0],
            final(self)@ == back_tab_spec(old(self)@),
    {
        let old_off = self.current();
        let off = match self.0.pop() {
            Some(o) => o,
            None => 0,
        };
        self.0.insert(0, off);
        assert(self.0@ =~= back_tab_spec(old(self)@));
        old_off
    }

    /// Moves the focus to element `off`, which must be in the order: `None`
    /// when it already has the focus; otherwise `off` is moved to the front,
    /// the first position that holds it, and returned.
    pub fn tab_to(&mut self, off: usize) -> (r: Option<usize>)
        requires
            old(self)@.contains(off),
        ensures
            old(self)@[0] == off ==> r is None && final(self)@ == old(self)@,
            old(self)@[0] != off ==> r == Some(off) && exists|i: int|
                first_at(old(self)@, off, i) && final(self)@ == jump_spec(old(self)@, i),
    {
        let n = self.0.len();
        let mut i: usize = 0;
        while i < n
            invariant
                i <= n,
                n == self.0@.len(),
                self.0@ == old(self)@,
                old(self)@.contains(off),
                forall|k: int| 0 <= k < i ==> self.0@[k] != off,
            decreases n - i,
        {
            if self.0[i] == off {
                if i == 0 {
                    return None;
                } else {
                    let ghost pre = self.0@;
                    assert(first_at(pre, off, i as int));
                    let old_off = self.0.remove(i);
                    self.0.insert(0, off);
                    assert(self.0@ =~= jump_spec(pre, i as int));
                    return Some(old_off);
                }
            }
            i = i + 1;
        }
        proof {
            let k = choose|k: int| 0 <= k < old(self)@.len() && old(self)@[k] == off;
            assert(self.0@[k] == off);
        }
        None
    }
}

/// A tab undone by a back-tab leaves the order as it was.
pub proof fn lemma_back_tab_undoes_tab(s: Seq<usize>)
    requires
        s.len() > 0,
    ensures
        back_tab_spec(tab_spec(s)) == s,
{
    assert(back_tab_spec(tab_spec(s)) =~= s);
}

/// A back-tab undone by a tab leaves the order as it was.
pub proof fn lemma_tab_undoes_back_tab(s: Seq<usize>)
    requires
        s.len() > 0,
    ensures
        tab_spec(back_tab_spec(s)) == s,
{
    assert(tab_spec(back_tab_spec(s)) =~= s);
}

/// Moving the focus never loses or adds an element: the order after a tab,
/// a back-tab or a jump holds the same elements, as many times each.
pub proof fn lemma_focus_moves_permute(s: Seq<usize>, i: int)
    requires
        s.len() > 0,
        0 <= i < s.len(),
    ensures
        tab_spec(s).to_multiset() == s.to_multiset(),
        back_tab_spec(s).to_multiset() == s.to_multiset(),
        jump_spec(s, i).to_multiset() == s.to_multiset(),
{
    broadcast use vstd::seq_lib::group_to_multiset_ensures;

    assert(s =~= seq![s[0]] + s.drop_first());
    vstd::seq_lib::lemma_multiset_commutative(seq![s[0]], s.drop_first());
    assert(s =~= s.drop_last() + seq![s.last()]);
    vstd::seq_lib::lemma_multiset_commutative(s.drop_last(), seq![s.last()]);
    vstd::seq_lib::lemma_multiset_commutative(seq![s.last()], s.drop_last());
    assert(s.remove(i).to_multiset() == s.to_multiset().remove(s[i]));
    vstd::seq_lib::lemma_multiset_commutative(seq![s[i]], s.remove(i));
    assert(s.to_multiset().contains(s[i]));
}

// ---------------------------------------------------------------------
// The page that creates a workspace.

/// What the terminal's cursor is to do.
#[derive(Clone, Copy, Debug, PartialEq, Eq, Structural)]
pub enum Cursor {
    /// Show the cursor in the cell at `col`, `row`.
    MoveTo(u16, u16),
    /// Hide the cursor.
    Hide,
}

/// How a page answers the event that its focused element handed back.
#[derive(Clone, Copy, Debug, PartialEq, Eq, Structural)]
pub enum PageMove {
    /// Nothing to do, nothing handed on.
    Keep,
    /// Escape: the focus goes to the border.
    ToBorder,
    /// Enter or Tab: the focus goes to the next element.
    Next,
    /// Back-tab: the focus goes to the previous element.
    Prev,
    /// The event is handed on.
    Pass,
}

/// How the page answers `out`, handed back by its focused element: a
/// submit ends there, Escape (with no modifier) goes to the border, Enter
/// and Tab to the next element, Back-tab to the previous one; other events
/// are handed on.
pub open spec fn page_move(out: Option<Event>) -> PageMove {
    match out {
        None => PageMove::Keep,
        Some(ev) => if ev == Event::Submit {
            PageMove::Keep
        } else if key_code_of(ev) == Some(KeyCode::Esc) && modifiers_of(ev).bits == 0 {
            PageMove::ToBorder
        } else if key_code_of(ev) == Some(KeyCode::Enter) || key_code_of(ev) == Some(KeyCode::Tab) {
            PageMove::Next
        } else if key_code_of(ev) == Some(KeyCode::BackTab) {
            PageMove::Prev
        } else {
            PageMove::Pass
        },
    }
}

/// The cursor moves for an element that puts the cursor in `cell`.
pub open spec fn cursor_acts(cell: Option<(u16, u16)>) -> Seq<Cursor> {
    match cell {
        Some(c) => seq![Cursor::MoveTo(c.0, c.1)],
        None => Seq::<Cursor>::empty(),
    }
}

/// The cursor moves when element `i` takes the focus: the element's own,
/// then hiding the cursor when it is the border.
pub open spec fn focus_acts(els: Seq<Element>, i: usize) -> Seq<Cursor> {
    cursor_acts(els[i as int].focus_cell()) + if i == 0 {
        seq![Cursor::Hide]
    } else {
        Seq::<Cursor>::empty()
    }
}

/// The order in which the elements of a new page take the focus: the
/// workspace's name, the commodity's name, symbol, aliases, tags and notes,
/// the button, and last the border.
pub open spec fn first_order() -> Seq<usize> {
    seq![1usize, 3, 4, 5, 6, 7, 8, 0]
}

/// The page can be laid out in `vp`: its border fits the terminal, its
/// elements' places stay within `i16` (the offsets are added as `i16`),
/// the cursor can be put in each editing element, and the notes box
/// starts its view at the first line of its (empty) text or just past it.
pub open spec fn page_fits(vp: Viewport) -> bool {
    &&& border_fits(vp)
    &&& vp.sp_col() + 18 <= i16::MAX
    &&& vp.sp_row() + 23 <= i16::MAX
    &&& vp.sp_col() + 17 + vp.sp_cursor_off().0 <= u16::MAX
    &&& vp.sp_row() + 15 + vp.sp_cursor_off().1 <= u16::MAX
    &&& vp.sp_ed_origin().1 <= 1
}

/// The viewport of the layers on a terminal of `cols` columns and `rows`
/// rows: all of it but the head line at the top and the status line at the
/// bottom, from its first column and second row. Where the terminal has at
/// least one column a new page fits in it.
pub fn main_viewport(cols: u16, rows: u16) -> (r: Viewport)
    requires
        rows >= 2,
    ensures
        r.sp_col() == 1,
        r.sp_row() == 2,
        r.sp_height() == rows - 2,
        r.sp_width() == cols,
        r.sp_ed_origin() == (0usize, 0usize),
        r.sp_cursor_off() == (0u16, 0u16),
        r.sp_scroll_off() == 0,
        cols >= 1 ==> page_fits(r),
{
    Viewport::new(1, 2, rows - 2, cols)
}

/// `v` is `vp` moved by `dc` columns and `dr` rows and resized to `h` rows
/// of `w` columns.
pub open spec fn placed(v: Viewport, vp: Viewport, dc: int, dr: int, h: u16, w: u16) -> bool {
    &&& v.sp_col() == vp.sp_col() + dc
    &&& v.sp_row() == vp.sp_row() + dr
    &&& v.sp_height() == h
    &&& v.sp_width() == w
    &&& v.sp_ed_origin() == vp.sp_ed_origin()
    &&& v.sp_cursor_off() == vp.sp_cursor_off()
    &&& v.sp_scroll_off() == vp.sp_scroll_off()
}

/// An empty editing line at its place, with its hint, field name and mark.
pub open spec fn fresh_line(
    e: Element,
    vp: Viewport,
    dc: int,
    dr: int,
    inline: Seq<char>,
    field: Seq<char>,
    mandatory: bool,
) -> bool {
    e matches Element::EditLine(em) && {
        &&& placed(em.sp_vp(), vp, dc, dr, 1, 60)
        &&& em.sp_inline() == inline
        &&& em.sp_field() == field
        &&& em.sp_mandatory() == mandatory
        &&& em.sp_buffer().text() == Seq::<char>::empty()
        &&& em.sp_buffer().cursor_pos() == 0
        &&& !em.sp_focus()
        &&& em.cache_ok()
    }
}

/// The elements of a new page laid out in `vp`.
pub open spec fn first_layout(els: Seq<Element>, vp: Viewport) -> bool {
    &&& els.len() == 9
    &&& els[0] matches Element::Border(b) && b.sp_vp() == vp && b.sp_title() == seq![' ']
        + "Create new workspace"@ + seq![' '] && !b.sp_focus()
    &&& fresh_line(
        els[1],
        vp,
        5,
        3,
        "Enter workspace name, only alphanumeric and '_'"@,
        Seq::<char>::empty(),
        true,
    )
    &&& els[2] matches Element::Span(sp) && placed(sp.sp_vp(), vp, 5, 5, 1, 60) && sp.sp_content()
        == "Enter default commodity details"@ && sp.sp_fg() == FG_SECTION
    &&& fresh_line(
        els[3],
        vp,
        8,
        7,
        "Name of the commodity, only alphanumeric"@,
        "Name    :"@,
        true,
    )
    &&& fresh_line(els[4], vp, 8, 9, "Symbol for commodity, EG: '₹'"@, "Symbol  :"@, false)
    &&& fresh_line(els[5], vp, 8, 11, "Comman separated list of aliases"@, "Aliases :"@, false)
    &&& fresh_line(
        els[6],
        vp,
        8,
        13,
        "List of tags, EG: money.asia,exchange.westernunion"@,
        "Tags    :"@,
        false,
    )
    &&& els[7] matches Element::EditBox(bx) && {
        &&& placed(bx.sp_vp(), vp, 8, 15, 7, 60)
        &&& bx.sp_inline() == "Any notes for user consumption"@
        &&& bx.sp_field() == "Notes   :"@
        &&& !bx.sp_mandatory()
        &&& bx.sp_buffer().text() == Seq::<char>::empty()
        &&& bx.sp_buffer().cursor_pos() == 0
        &&& !bx.sp_focus()
        &&& bx.cache_ok()
    }
    &&& els[8] matches Element::Button(bt) && placed(bt.sp_vp(), vp, 18, 23, 1, 4) && bt.sp_text()
        == "ok"@ && bt.sp_btyp() == ButtonType::Submit && bt.sp_bold() && !bt.sp_focus()
        && bt.caches_ok()
}

/// A focus order with the elements of the first order, each as many times,
/// holds eight distinct elements below nine, the border among them.
pub proof fn lemma_order_facts(s: Seq<usize>)
    requires
        s.to_multiset() == first_order().to_multiset(),
    ensures
        s.len() == 8,
        s.no_duplicates(),
        forall|i: int| 0 <= i < s.len() ==> #[trigger] s[i] < 9,
        s.contains(0),
{
    broadcast use vstd::seq_lib::group_to_multiset_ensures;

    let f = first_order();
    assert(f.len() == 8);
    assert(f.to_multiset().len() == 8);
    assert(s.to_multiset().len() == s.len());
    assert(f.no_duplicates());
    f.lemma_multiset_has_no_duplicates();
    s.lemma_multiset_has_no_duplicates_conv();
    assert forall|i: int| 0 <= i < s.len() implies #[trigger] s[i] < 9 by {
        assert(s.contains(s[i]));
        assert(f.to_multiset().count(s[i]) > 0);
        assert(f.contains(s[i]));
        let k = choose|k: int| 0 <= k < f.len() && f[k] == s[i];
        assert(f[k] < 9);
    }
    assert(f[7] == 0);
    assert(f.contains(0));
    assert(f.to_multiset().count(0) > 0);
}

/// The rows of the page's background: `n` rows of `width` spaces from row
/// `y0` on, at column `x`.
pub open spec fn page_rows(x: u16, y0: u16, n: nat, width: nat) -> Seq<char>
    decreases n,
{
    if n == 0 {
        Seq::<char>::empty()
    } else {
        page_rows(x, y0, (n - 1) as nat, width) + move_to_seq(x, (y0 + n - 1) as u16)
            + styled_on_seq(repeat_seq(' ', width), BG_LAYER)
    }
}

/// The drawings of the first `n` elements, one after the other.
pub open spec fn drawings(els: Seq<Element>, n: int) -> Seq<char>
    decreases n,
{
    if n <= 0 {
        Seq::<char>::empty()
    } else {
        drawings(els, n - 1) + els[n - 1].drawing()
    }
}

/// The drawings that a refresh of the first `n` elements asks for: those
/// of the elements (after the refresh) that asked to be drawn.
pub open spec fn refresh_out(old: Seq<Element>, new: Seq<Element>, force: bool, n: int) -> Seq<char>
    decreases n,
{
    if n <= 0 {
        Seq::<char>::empty()
    } else {
        refresh_out(old, new, force, n - 1) + if old[n - 1].draws(force) {
            new[n - 1].drawing()
        } else {
            Seq::<char>::empty()
        }
    }
}

/// The page that creates a workspace: its name, and the default
/// commodity's name, symbol, aliases, tags and notes, with a button to
/// submit them.
pub struct NewWorkspace {
    vp: Viewport,
    elements: Vec<Element>,
    focus: TabOffsets,
}

impl NewWorkspace {
    pub closed spec fn sp_vp(&self) -> Viewport {
        self.vp
    }

    /// The page's elements.
    pub closed spec fn elements(&self) -> Seq<Element> {
        self.elements@
    }

    /// The focus order; the element in front has the focus.
    pub closed spec fn order(&self) -> Seq<usize> {
        self.focus@
    }

    /// The page is well formed: nine elements of fixed kinds, each ready to
    /// be refreshed, focused and drawn, and a focus order that holds the
    /// elements of the first order.
    pub open spec fn wf(&self) -> bool {
        let els = self.elements();
        &&& els.len() == 9
        &&& self.order().to_multiset() == first_order().to_multiset()
        &&& els[0] is Border
        &&& els[1] is EditLine
        &&& els[2] is Span
        &&& els[3] is EditLine
        &&& els[4] is EditLine
        &&& els[5] is EditLine
        &&& els[6] is EditLine
        &&& els[7] is EditBox
        &&& els[8] matches Element::Button(b) && b.sp_btyp() == ButtonType::Submit
        &&& forall|i: int| 0 <= i < 9 ==> #[trigger] els[i].ready()
        &&& border_fits(self.sp_vp())
    }

    /// The element that has the focus.
    pub open spec fn current(&self) -> usize {
        self.order()[0]
    }
}

/// A `u16` below 2^15 reads the same as an `i16`, and back.
proof fn lemma_small_u16(x: u16)
    requires
        x <= 0x7fff,
    ensures
        (x as i16) == x,
{
    assert((x as i16) == x) by (bit_vector)
        requires
            x <= 0x7fff,
    ;
}

/// A non-negative `i16` reads the same as a `u16`.
proof fn lemma_nonneg_i16(x: i16)
    requires
        x >= 0,
    ensures
        (x as u16) == x,
{
    assert((x as u16) == x) by (bit_vector)
        requires
            x >= 0,
    ;
}

/// `v` moved by (`dc`, `dr`) and resized to `h` rows of `w` columns.
fn sub_viewport(v: Viewport, dc: i16, dr: i16, h: u16, w: u16) -> (r: Viewport)
    requires
        0 <= dc,
        0 <= dr,
        v.sp_col() + dc <= i16::MAX,
        v.sp_row() + dr <= i16::MAX,
    ensures
        placed(r, v, dc as int, dr as int, h, w),
{
    proof {
        lemma_small_u16(v.sp_col());
        lemma_small_u16(v.sp_row());
        lemma_nonneg_i16(((v.sp_col() as i16) + dc) as i16);
        lemma_nonneg_i16(((v.sp_row() as i16) + dr) as i16);
    }
    v.move_by(dc, dr).resize_to(h, w)
}

impl NewWorkspace {
    /// A new page laid out in `vp`, the focus order starting at the
    /// workspace's name.
    pub fn new(vp: Viewport) -> (r: Result<NewWorkspace>)
        requires
            page_fits(vp),
        ensures
            r matches Ok(w) && w.wf() && w.sp_vp() == vp && w.order() == first_order()
                && first_layout(w.elements(), vp),
    {
        proof {
            reveal_strlit("Name    :");
            reveal_strlit("Symbol  :");
            reveal_strlit("Aliases :");
            reveal_strlit("Tags    :");
            reveal_strlit("Notes   :");
            reveal_strlit("ok");
            text::lemma_ascii_width("Name    :"@);
            text::lemma_ascii_width("Symbol  :"@);
            text::lemma_ascii_width("Aliases :"@);
            text::lemma_ascii_width("Tags    :"@);
            text::lemma_ascii_width("Notes   :"@);
            text::lemma_ascii_width("ok"@);
        }
        let border = match Border::new(vp, text::str_to_string("Create new workspace")) {
            Ok(em) => em,
            Err(e) => return Err(e),
        };
        let mut ws_input_name = match EditLine::new(sub_viewport(vp, 5, 3, 1, 60)) {
            Ok(em) => em,
            Err(e) => return Err(e),
        };
        ws_input_name.set_inline("Enter workspace name, only alphanumeric and '_'");
        ws_input_name.set_mandatory(true);
        ws_input_name.refresh(true);
        let mut comm_head = match Span::new(
            sub_viewport(vp, 5, 5, 1, 60),
            "Enter default commodity details",
        ) {
            Ok(em) => em,
            Err(e) => return Err(e),
        };
        comm_head.set_fg_color(FG_SECTION);
        let mut comm_input_name = match EditLine::new(sub_viewport(vp, 8, 7, 1, 60)) {
            Ok(em) => em,
            Err(e) => return Err(e),
        };
        comm_input_name.set_inline("Name of the commodity, only alphanumeric");
        comm_input_name.set_mandatory(true);
        comm_input_name.set_field("Name    :");
        let mut comm_input_symbol = match EditLine::new(sub_viewport(vp, 8, 9, 1, 60)) {
            Ok(em) => em,
            Err(e) => return Err(e),
        };
        comm_input_symbol.set_inline("Symbol for commodity, EG: '₹'");
        comm_input_symbol.set_field("Symbol  :");
        let mut comm_input_aliases = match EditLine::new(sub_viewport(vp, 8, 11, 1, 60)) {
            Ok(em) => em,
            Err(e) => return Err(e),
        };
        comm_input_aliases.set_inline("Comman separated list of aliases");
        comm_input_aliases.set_field("Aliases :");
        let mut comm_tags = match EditLine::new(sub_viewport(vp, 8, 13, 1, 60)) {
            Ok(em) => em,
            Err(e) => return Err(e),
        };
        comm_tags.set_inline("List of tags, EG: money.asia,exchange.westernunion");
        comm_tags.set_field("Tags    :");
        let mut comm_input_notes = match EditBox::new(sub_viewport(vp, 8, 15, 7, 60)) {
            Ok(em) => em,
            Err(e) => return Err(e),
        };
        comm_input_notes.set_inline("Any notes for user consumption");
        comm_input_notes.set_field("Notes   :");
        let mut button_ok = match Button::new(
            sub_viewport(vp, 18, 23, 1, 4),
            "ok",
            ButtonType::Submit,
        ) {
            Ok(em) => em,
            Err(e) => return Err(e),
        };
        button_ok.set_bold(true);

        let mut elements: Vec<Element> = Vec::new();
        elements.push(Element::Border(border));
        elements.push(Element::EditLine(ws_input_name));
        elements.push(Element::Span(comm_head));
        elements.push(Element::EditLine(comm_input_name));
        elements.push(Element::EditLine(comm_input_symbol));
        elements.push(Element::EditLine(comm_input_aliases));
        elements.push(Element::EditLine(comm_tags));
        elements.push(Element::EditBox(comm_input_notes));
        elements.push(Element::Button(button_ok));
        let order: Vec<usize> = vec![1, 3, 4, 5, 6, 7, 8, 0];
        let w = NewWorkspace { vp, elements, focus: TabOffsets::new(order) };
        assert(w.order() =~= first_order());
        assert(forall|i: int| 0 <= i < 9 ==> #[trigger] w.elements()[i].ready());
        Ok(w)
    }
}

/// The page's answer to `out` and `cell`, handed back by its focused
/// element, when its elements are `els` and its focus order `order`:
/// the elements and order after it, the event handed on and the cursor
/// moves (first the focused element's, then those of the element that
/// takes the focus).
pub open spec fn reacted(
    els: Seq<Element>,
    order: Seq<usize>,
    out: Option<Event>,
    cell: Option<(u16, u16)>,
    new_els: Seq<Element>,
    new_order: Seq<usize>,
    ret: Option<Event>,
    acts: Seq<Cursor>,
) -> bool {
    let cur = order[0] as int;
    match page_move(out) {
        PageMove::Keep => new_els == els && new_order == order && ret is None && acts == cursor_acts(
            cell,
        ),
        PageMove::Pass => new_els == els && new_order == order && ret == out && acts == cursor_acts(
            cell,
        ),
        PageMove::ToBorder => if cur == 0 {
            new_els == els && new_order == order && ret is None && acts == cursor_acts(cell)
        } else {
            &&& exists|i: int| first_at(order, 0, i) && new_order == jump_spec(order, i)
            &&& exists|m: Element| els[0].left(m) && m.focused(new_els[0], m.focus_cell())
            &&& new_els == els.update(0, new_els[0])
            &&& ret is None
            &&& acts == cursor_acts(cell) + focus_acts(els, 0) + seq![Cursor::Hide]
        },
        PageMove::Next => {
            let nxt = order[1] as int;
            &&& new_order == tab_spec(order)
            &&& els[cur].left(new_els[cur])
            &&& els[nxt].focused(new_els[nxt], els[nxt].focus_cell())
            &&& new_els == els.update(cur, new_els[cur]).update(nxt, new_els[nxt])
            &&& ret is None
            &&& acts == cursor_acts(cell) + focus_acts(els, order[1])
        },
        PageMove::Prev => {
            let prv = order.last() as int;
            &&& new_order == back_tab_spec(order)
            &&& els[cur].left(new_els[cur])
            &&& els[prv].focused(new_els[prv], els[prv].focus_cell())
            &&& new_els == els.update(cur, new_els[cur]).update(prv, new_els[prv])
            &&& ret is None
            &&& acts == cursor_acts(cell) + focus_acts(els, order.last())
        },
    }
}

/// Enter and Tab handed back by the focused element both move the focus
/// on, whatever modifiers they carry: the element in front of the focus
/// order goes to its back, the next one comes to the front, and no event
/// is handed on.
pub proof fn lemma_enter_and_tab_move_on(
    els: Seq<Element>,
    order: Seq<usize>,
    code: KeyCode,
    modifiers: crate::event::KeyModifiers,
    cell: Option<(u16, u16)>,
    new_els: Seq<Element>,
    new_order: Seq<usize>,
    ret: Option<Event>,
    acts: Seq<Cursor>,
)
    requires
        code == KeyCode::Enter || code == KeyCode::Tab,
        order.len() >= 1,
        reacted(
            els,
            order,
            Some(Event::Key { code, modifiers }),
            cell,
            new_els,
            new_order,
            ret,
            acts,
        ),
    ensures
        new_order.len() == order.len(),
        new_order[new_order.len() - 1] == order[0],
        forall|k: int| 0 <= k < order.len() - 1 ==> new_order[k] == order[k + 1],
        ret is None,
{
}

impl NewWorkspace {
    /// Element `i` of a well-formed page exists, and so does the one in
    /// front of the focus order.
    proof fn lemma_wf_facts(&self)
        requires
            self.wf(),
        ensures
            self.order().len() == 8,
            self.order().no_duplicates(),
            forall|i: int| 0 <= i < self.order().len() ==> #[trigger] self.order()[i] < 9,
            self.order().contains(0),
            self.current() < 9,
    {
        lemma_order_facts(self.order());
    }

    /// The element in front of the focus order takes the focus.
    fn focus_element(&mut self, acts: &mut Vec<Cursor>)
        requires
            old(self).wf(),
        ensures
            final(self).wf(),
            final(self).sp_vp() == old(self).sp_vp(),
            final(self).order() == old(self).order(),
            old(self).elements()[old(self).current() as int].focused(
                final(self).elements()[old(self).current() as int],
                old(self).elements()[old(self).current() as int].focus_cell(),
            ),
            final(self).elements() == old(self).elements().update(
                old(self).current() as int,
                final(self).elements()[old(self).current() as int],
            ),
            final(acts)@ == old(acts)@ + focus_acts(old(self).elements(), old(self).current()),
    {
        proof {
            self.lemma_wf_facts();
        }
        let em_idx = self.focus.current();
        assert(self.elements@[em_idx as int].ready());
        let cell = self.elements[em_idx].focus();
        let ghost new_el = self.elements@[em_idx as int];
        proof {
            te::lemma_focused_ready(old(self).elements()[em_idx as int], new_el, cell);
        }
        match cell {
            Some((c, r)) => acts.push(Cursor::MoveTo(c, r)),
            None => {},
        }
        if em_idx == 0 {
            acts.push(Cursor::Hide);
        }
        assert(self.elements@ =~= old(self).elements().update(em_idx as int, new_el));
        assert(forall|i: int| 0 <= i < 9 ==> #[trigger] self.elements@[i].ready());
    }

    /// The element that has the focus takes it: the result is how the
    /// terminal's cursor moves.
    pub fn focus(&mut self) -> (r: Vec<Cursor>)
        requires
            old(self).wf(),
        ensures
            final(self).wf(),
            final(self).sp_vp() == old(self).sp_vp(),
            final(self).order() == old(self).order(),
            old(self).elements()[old(self).current() as int].focused(
                final(self).elements()[old(self).current() as int],
                old(self).elements()[old(self).current() as int].focus_cell(),
            ),
            final(self).elements() == old(self).elements().update(
                old(self).current() as int,
                final(self).elements()[old(self).current() as int],
            ),
            r@ == focus_acts(old(self).elements(), old(self).current()),
    {
        let mut acts: Vec<Cursor> = Vec::new();
        self.focus_element(&mut acts);
        acts
    }

    /// The element that has the focus loses it.
    pub fn leave(&mut self)
        requires
            old(self).wf(),
        ensures
            final(self).wf(),
            final(self).sp_vp() == old(self).sp_vp(),
            final(self).order() == old(self).order(),
            old(self).elements()[old(self).current() as int].left(
                final(self).elements()[old(self).current() as int],
            ),
            final(self).elements() == old(self).elements().update(
                old(self).current() as int,
                final(self).elements()[old(self).current() as int],
            ),
    {
        proof {
            self.lemma_wf_facts();
        }
        let off = self.focus.current();
        assert(self.elements@[off as int].ready());
        self.elements[off].leave();
        let ghost new_el = self.elements@[off as int];
        proof {
            te::lemma_left_ready(old(self).elements()[off as int], new_el);
        }
        assert(self.elements@ =~= old(self).elements().update(off as int, new_el));
        assert(forall|i: int| 0 <= i < 9 ==> #[trigger] self.elements@[i].ready());
    }

    /// Refreshes every element, in order; the result is the drawings of
    /// those that ask to be drawn.
    pub fn refresh(&mut self, force: bool) -> (r: Result<String>)
        requires
            old(self).wf(),
        ensures
            final(self).wf(),
            final(self).sp_vp() == old(self).sp_vp(),
            final(self).order() == old(self).order(),
            final(self).elements().len() == 9,
            forall|i: int|
                0 <= i < 9 ==> #[trigger] old(self).elements()[i].refreshed(
                    final(self).elements()[i],
                    Received::Empty,
                    force,
                    Ok(old(self).elements()[i].draws(force)),
                ),
            r matches Ok(out) && out@ == refresh_out(
                old(self).elements(),
                final(self).elements(),
                force,
                9,
            ),
    {
        let mut out = text::s_new();
        let mut i: usize = 0;
        while i < 9
            invariant
                0 <= i <= 9,
                self.wf(),
                self.vp == old(self).vp,
                self.focus@ == old(self).focus@,
                self.elements@.len() == 9,
                forall|k: int|
                    0 <= k < i ==> #[trigger] old(self).elements()[k].refreshed(
                        self.elements@[k],
                        Received::Empty,
                        force,
                        Ok(old(self).elements()[k].draws(force)),
                    ),
                forall|k: int| i <= k < 9 ==> #[trigger] self.elements@[k] == old(self).elements()[k],
                out@ == refresh_out(old(self).elements(), self.elements@, force, i as int),
            decreases 9 - i,
        {
            let ghost before = self.elements@;
            assert(self.elements@[i as int].ready());
            let draw = match self.elements[i].refresh(Received::Empty, force) {
                Ok(d) => d,
                Err(e) => return Err(e),
            };
            let ghost new_el = self.elements@[i as int];
            proof {
                te::lemma_refreshed_ready(before[i as int], new_el, Received::Empty, force, Ok(draw));
                assert(self.elements@ =~= before.update(i as int, new_el));
                assert(draw == before[i as int].draws(force));
                assert forall|k: int| 0 <= k < i implies refresh_out(
                    old(self).elements(),
                    self.elements@,
                    force,
                    k,
                ) == refresh_out(old(self).elements(), before, force, k) by {
                    lemma_refresh_out_prefix(old(self).elements(), self.elements@, before, force, k);
                }
                lemma_refresh_out_prefix(
                    old(self).elements(),
                    self.elements@,
                    before,
                    force,
                    i as int,
                );
            }
            if draw {
                let d = self.elements[i].to_string();
                out.append(d.as_str());
            }
            assert(forall|k: int| 0 <= k < 9 ==> #[trigger] self.elements@[k].ready());
            i = i + 1;
        }
        Ok(out)
    }

    /// The page's answer to what its focused element handed back.
    fn react(&mut self, out: Option<Event>, cell: Option<(u16, u16)>) -> (r: (
        Option<Event>,
        Vec<Cursor>,
    ))
        requires
            old(self).wf(),
        ensures
            final(self).wf(),
            final(self).sp_vp() == old(self).sp_vp(),
            reacted(
                old(self).elements(),
                old(self).order(),
                out,
                cell,
                final(self).elements(),
                final(self).order(),
                r.0,
                r.1@,
            ),
    {
        proof {
            self.lemma_wf_facts();
        }
        let mut acts: Vec<Cursor> = Vec::new();
        match cell {
            Some((c, rr)) => acts.push(Cursor::MoveTo(c, rr)),
            None => {},
        }
        let ev = match out {
            Some(ev) => ev,
            None => return (None, acts),
        };
        if ev == Event::Submit {
            return (None, acts);
        }
        let m = ev.to_modifier();
        match ev.to_key_code() {
            Some(KeyCode::Esc) if m.is_empty() => {
                match self.focus.tab_to(0) {
                    Some(old_off) => {
                        proof {
                            lemma_focus_moves_permute(
                                old(self).order(),
                                choose|i: int| first_at(old(self).order(), 0, i) && self.focus@ == jump_spec(old(self).order(), i),
                            );
                        }
                        let ghost acts0 = acts@;
                        self.leave_at(old_off);
                        let ghost els1 = self.elements@;
                        self.focus_element(&mut acts);
                        proof {
                            assert(els1[0].focus_cell() == old(self).elements()[0].focus_cell());
                            assert(focus_acts(els1, 0) == focus_acts(old(self).elements(), 0));
                            assert(old(self).elements()[0].left(els1[0]));
                            assert(self.elements@ =~= old(self).elements().update(
                                0,
                                self.elements@[0],
                            ));
                        }
                        acts.push(Cursor::Hide);
                        assert(acts@ =~= acts0 + focus_acts(old(self).elements(), 0) + seq![Cursor::Hide]);
                        (None, acts)
                    },
                    None => (None, acts),
                }
            },
            Some(KeyCode::Enter) | Some(KeyCode::Tab) => {
                let old_off = self.focus.tab();
                proof {
                    lemma_focus_moves_permute(old(self).order(), 0);
                }
                self.leave_at(old_off);
                self.focus_element(&mut acts);
                (None, acts)
            },
            Some(KeyCode::BackTab) => {
                let old_off = self.focus.back_tab();
                proof {
                    lemma_focus_moves_permute(old(self).order(), 0);
                }
                self.leave_at(old_off);
                self.focus_element(&mut acts);
                (None, acts)
            },
            _ => (Some(ev), acts),
        }
    }

    /// Element `off` loses the focus.
    fn leave_at(&mut self, off: usize)
        requires
            old(self).wf(),
            off < 9,
        ensures
            final(self).wf(),
            final(self).sp_vp() == old(self).sp_vp(),
            final(self).order() == old(self).order(),
            old(self).elements()[off as int].left(final(self).elements()[off as int]),
            final(self).elements() == old(self).elements().update(
                off as int,
                final(self).elements()[off as int],
            ),
    {
        self.elements[off].leave();
        let ghost new_el = self.elements@[off as int];
        proof {
            te::lemma_left_ready(old(self).elements()[off as int], new_el);
        }
        assert(self.elements@ =~= old(self).elements().update(off as int, new_el));
        assert(forall|i: int| 0 <= i < 9 ==> #[trigger] self.elements@[i].ready());
    }
}

/// The drawings that a refresh of the first `n` elements asks for depend
/// on those elements only.
proof fn lemma_refresh_out_prefix(
    old: Seq<Element>,
    a: Seq<Element>,
    b: Seq<Element>,
    force: bool,
    n: int,
)
    requires
        0 <= n <= a.len(),
        n <= b.len(),
        forall|k: int| 0 <= k < n ==> a[k] == b[k],
    ensures
        refresh_out(old, a, force, n) == refresh_out(old, b, force, n),
    decreases n,
{
    if n > 0 {
        lemma_refresh_out_prefix(old, a, b, force, n - 1);
    }
}

impl NewWorkspace {
    /// The focused element handles `evnt`, and the page answers what it
    /// hands back (see `reacted`): the result is the event handed on and
    /// how the terminal's cursor moves.
    pub fn handle_event(&mut self, evnt: Event) -> (r: Result<(Option<Event>, Vec<Cursor>)>)
        requires
            old(self).wf(),
            old(self).elements()[old(self).current() as int].can_take(evnt),
        ensures
            final(self).wf(),
            final(self).sp_vp() == old(self).sp_vp(),
            r is Ok,
            exists|mid: Element, res: (Option<Event>, Option<(u16, u16)>)|
                {
                    &&& #[trigger] old(self).elements()[old(self).current() as int].handled(
                        mid,
                        evnt,
                        Ok(res),
                    )
                    &&& res.0 == old(self).elements()[old(self).current() as int].handed_back(evnt)
                    &&& r matches Ok((ret, acts)) && reacted(
                        old(self).elements().update(old(self).current() as int, mid),
                        old(self).order(),
                        res.0,
                        res.1,
                        final(self).elements(),
                        final(self).order(),
                        ret,
                        acts@,
                    )
                },
    {
        proof {
            self.lemma_wf_facts();
        }
        let off = self.focus.current();
        let res = self.elements[off].handle_event(evnt);
        let ghost mid = self.elements@[off as int];
        proof {
            te::lemma_handled_ready(old(self).elements()[off as int], mid, evnt, res);
            assert(self.elements@ =~= old(self).elements().update(off as int, mid));
            assert(forall|i: int| 0 <= i < 9 ==> #[trigger] self.elements@[i].ready());
        }
        match res {
            Ok((out, cell)) => {
                let ghost pair = (out, cell);
                let r = self.react(out, cell);
                assert(old(self).elements()[off as int].handled(mid, evnt, Ok(pair)));
                Ok(r)
            },
            Err(e) => Err(e),
        }
    }

    /// Whether the focused element can take `evnt`.
    pub fn can_handle(&self, evnt: &Event) -> (r: bool)
        requires
            self.wf(),
        ensures
            r == self.elements()[self.current() as int].can_take(*evnt),
    {
        proof {
            self.lemma_wf_facts();
        }
        let off = self.focus.current();
        self.elements[off].can_handle(evnt)
    }

    /// The page drawn: its background, row by row, then each element.
    pub fn to_string(&self) -> (r: String)
        requires
            self.wf(),
            self.sp_vp().sp_row() + self.sp_vp().sp_height() <= u16::MAX,
        ensures
            r@ == page_rows(
                (self.sp_vp().sp_col() - 1) as u16,
                self.sp_vp().sp_row(),
                self.sp_vp().sp_height() as nat,
                self.sp_vp().sp_width() as nat,
            ) + drawings(self.elements(), 9),
    {
        let (col, row) = self.vp.to_origin();
        let (height, width) = self.vp.to_size();
        let mut output = text::s_new();
        let s = text::repeat_char(' ', width as usize);
        let mut r: u16 = 0;
        while r < height
            invariant
                r <= height,
                col == self.sp_vp().sp_col(),
                row == self.sp_vp().sp_row(),
                height == self.sp_vp().sp_height(),
                width == self.sp_vp().sp_width(),
                col >= 1,
                row + height <= u16::MAX,
                s@ == repeat_seq(' ', width as nat),
                output@ == page_rows((col - 1) as u16, row, r as nat, width as nat),
            decreases height - r,
        {
            output.append(ansi::move_to(col - 1, row + r).as_str());
            output.append(ansi::styled_on(s.as_str(), BG_LAYER).as_str());
            r = r + 1;
        }
        let ghost pre = output@;
        let mut i: usize = 0;
        while i < self.elements.len()
            invariant
                self.wf(),
                0 <= i <= 9,
                output@ == pre + drawings(self.elements(), i as int),
            decreases 9 - i,
        {
            assert(self.elements@[i as int].ready());
            let d = self.elements[i].to_string();
            output.append(d.as_str());
            assert(output@ =~= pre + drawings(self.elements(), i + 1));
            i = i + 1;
        }
        output
    }
}

/// A layer of the screen.
pub enum Layer {
    NewWorkspace(NewWorkspace),
}

impl Layer {
    /// The layer is well formed.
    pub open spec fn wf(&self) -> bool {
        match self {
            Layer::NewWorkspace(l) => l.wf(),
        }
    }

    /// The page of the layer.
    pub open spec fn page(&self) -> NewWorkspace {
        match self {
            Layer::NewWorkspace(l) => *l,
        }
    }

    /// The layer's focused element takes the focus (see
    /// `NewWorkspace::focus`).
    pub fn focus(&mut self) -> (r: Vec<Cursor>)
        requires
            old(self).wf(),
        ensures
            final(self).wf(),
            final(self).page().sp_vp() == old(self).page().sp_vp(),
            final(self).page().order() == old(self).page().order(),
            old(self).page().elements()[old(self).page().current() as int].focused(
                final(self).page().elements()[old(self).page().current() as int],
                old(self).page().elements()[old(self).page().current() as int].focus_cell(),
            ),
            final(self).page().elements() == old(self).page().elements().update(
                old(self).page().current() as int,
                final(self).page().elements()[old(self).page().current() as int],
            ),
            r@ == focus_acts(old(self).page().elements(), old(self).page().current()),
    {
        match self {
            Layer::NewWorkspace(l) => l.focus(),
        }
    }

    /// Refreshes the layer (see `NewWorkspace::refresh`).
    pub fn refresh(&mut self, force: bool) -> (r: Result<String>)
        requires
            old(self).wf(),
        ensures
            final(self).wf(),
            final(self).page().sp_vp() == old(self).page().sp_vp(),
            final(self).page().order() == old(self).page().order(),
            final(self).page().elements().len() == 9,
            forall|i: int|
                0 <= i < 9 ==> #[trigger] old(self).page().elements()[i].refreshed(
                    final(self).page().elements()[i],
                    Received::Empty,
                    force,
                    Ok(old(self).page().elements()[i].draws(force)),
                ),
            r matches Ok(out) && out@ == refresh_out(
                old(self).page().elements(),
                final(self).page().elements(),
                force,
                9,
            ),
    {
        match self {
            Layer::NewWorkspace(l) => l.refresh(force),
        }
    }

    /// Whether the layer's focused element can take `evnt`.
    pub fn can_handle(&self, evnt: &Event) -> (r: bool)
        requires
            self.wf(),
        ensures
            r == self.page().elements()[self.page().current() as int].can_take(*evnt),
    {
        match self {
            Layer::NewWorkspace(l) => l.can_handle(evnt),
        }
    }

    /// The layer handles `evnt` (see `NewWorkspace::handle_event`).
    pub fn handle_event(&mut self, evnt: Event) -> (r: Result<(Option<Event>, Vec<Cursor>)>)
        requires
            old(self).wf(),
            old(self).page().elements()[old(self).page().current() as int].can_take(evnt),
        ensures
            final(self).wf(),
            final(self).page().sp_vp() == old(self).page().sp_vp(),
            r is Ok,
            exists|mid: Element, res: (Option<Event>, Option<(u16, u16)>)|
                {
                    &&& #[trigger] old(self).page().elements()[old(self).page().current() as int].handled(
                        mid,
                        evnt,
                        Ok(res),
                    )
                    &&& res.0 == old(self).page().elements()[old(
                        self,
                    ).page().current() as int].handed_back(evnt)
                    &&& r matches Ok((ret, acts)) && reacted(
                        old(self).page().elements().update(old(self).page().current() as int, mid),
                        old(self).page().order(),
                        res.0,
                        res.1,
                        final(self).page().elements(),
                        final(self).page().order(),
                        ret,
                        acts@,
                    )
                },
    {
        match self {
            Layer::NewWorkspace(l) => l.handle_event(evnt),
        }
    }

    /// The layer's focused element loses the focus (see
    /// `NewWorkspace::leave`).
    pub fn leave(&mut self)
        requires
            old(self).wf(),
        ensures
            final(self).wf(),
            final(self).page().sp_vp() == old(self).page().sp_vp(),
            final(self).page().order() == old(self).page().order(),
            old(self).page().elements()[old(self).page().current() as int].left(
                final(self).page().elements()[old(self).page().current() as int],
            ),
            final(self).page().elements() == old(self).page().elements().update(
                old(self).page().current() as int,
                final(self).page().elements()[old(self).page().current() as int],
            ),
    {
        match self {
            Layer::NewWorkspace(l) => l.leave(),
        }
    }

    /// The layer drawn (see `NewWorkspace::to_string`).
    pub fn to_string(&self) -> (r: String)
        requires
            self.wf(),
            self.page().sp_vp().sp_row() + self.page().sp_vp().sp_height() <= u16::MAX,
        ensures
            r@ == page_rows(
                (self.page().sp_vp().sp_col() - 1) as u16,
                self.page().sp_vp().sp_row(),
                self.page().sp_vp().sp_height() as nat,
                self.page().sp_vp().sp_width() as nat,
            ) + drawings(self.page().elements(), 9),
    {
        match self {
            Layer::NewWorkspace(l) => l.to_string(),
        }
    }
}

} // verus!
