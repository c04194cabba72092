//! The terminal escape sequences that the widgets are drawn with. Each is
//! produced by `crossterm`; the contracts say which characters it writes
//! (its Unix form).
use vstd::prelude::*;

use crate::text::dec_seq;

verus! {

/// The Control Sequence Introducer, `ESC [`.
pub open spec fn csi_seq() -> Seq<char> {
    seq!['\u{1b}', '[']
}

/// Moves the cursor to the 0-based cell (`col`, `row`).
pub open spec fn move_to_seq(col: u16, row: u16) -> Seq<char> {
    csi_seq() + dec_seq(row as nat + 1) + seq![';'] + dec_seq(col as nat + 1) + seq!['H']
}

/// Sets the background to the 256-colour palette entry `c`.
pub open spec fn set_bg_seq(c: u8) -> Seq<char> {
    csi_seq() + seq!['4', '8', ';', '5', ';'] + dec_seq(c as nat) + seq!['m']
}

/// Sets the foreground to the 256-colour palette entry `c`.
pub open spec fn set_fg_seq(c: u8) -> Seq<char> {
    csi_seq() + seq!['3', '8', ';', '5', ';'] + dec_seq(c as nat) + seq!['m']
}

/// Resets the background colour.
pub open spec fn reset_bg_seq() -> Seq<char> {
    csi_seq() + seq!['4', '9', 'm']
}

/// Resets the foreground colour.
pub open spec fn reset_fg_seq() -> Seq<char> {
    csi_seq() + seq!['3', '9', 'm']
}

/// Turns on bold text.
pub open spec fn bold_seq() -> Seq<char> {
    csi_seq() + seq!['1', 'm']
}

/// `content` drawn on background `bg`, the background reset after it.
pub open spec fn styled_on_seq(content: Seq<char>, bg: u8) -> Seq<char> {
    set_bg_seq(bg) + content + reset_bg_seq()
}

/// `content` drawn in `fg` on `bg`, both colours reset after it.
pub open spec fn styled_seq(content: Seq<char>, bg: u8, fg: u8) -> Seq<char> {
    set_bg_seq(bg) + set_fg_seq(fg) + content + reset_bg_seq() + reset_fg_seq()
}

/// `crossterm::cursor::MoveTo(col, row)` as text. crossterm writes
/// `ESC [ row+1 ; col+1 H`, adding one to each coordinate in `u16` (which
/// overflows for 65535).
#[verifier::external_body]
pub(crate) fn move_to(col: u16, row: u16) -> (r: String)
    requires
        col < u16::MAX,
        row < u16::MAX,
    ensures
        r@ == move_to_seq(col, row),
{
    crossterm::cursor::MoveTo(col, row).to_string()
}

/// `crossterm::style::SetBackgroundColor(Color::AnsiValue(c))` as text:
/// `ESC [ 48;5;c m`.
#[verifier::external_body]
pub(crate) fn set_background(c: u8) -> (r: String)
    ensures
        r@ == set_bg_seq(c),
{
    crossterm::style::SetBackgroundColor(crossterm::style::Color::AnsiValue(c)).to_string()
}

/// `crossterm::style::SetForegroundColor(Color::AnsiValue(c))` as text:
/// `ESC [ 38;5;c m`.
#[verifier::external_body]
pub(crate) fn set_foreground(c: u8) -> (r: String)
    ensures
        r@ == set_fg_seq(c),
{
    crossterm::style::SetForegroundColor(crossterm::style::Color::AnsiValue(c)).to_string()
}

/// `crossterm::style::SetAttribute(Attribute::Bold)` as text: `ESC [ 1 m`.
#[verifier::external_body]
pub(crate) fn set_bold() -> (r: String)
    ensures
        r@ == bold_seq(),
{
    crossterm::style::SetAttribute(crossterm::style::Attribute::Bold).to_string()
}

/// `crossterm::style::style(content).on(AnsiValue(bg))` as text:
/// crossterm's `StyledContent` writes the background, the content, then
/// resets the background.
#[verifier::external_body]
pub(crate) fn styled_on(content: &str, bg: u8) -> (r: String)
    ensures
        r@ == styled_on_seq(content@, bg),
{
    crossterm::style::style(content).on(crossterm::style::Color::AnsiValue(bg)).to_string()
}

/// `crossterm::style::style(content).on(AnsiValue(bg)).with(AnsiValue(fg))`
/// as text: crossterm's `StyledContent` writes the background, the
/// foreground, the content, then resets the background and the foreground.
#[verifier::external_body]
pub(crate) fn styled(content: &str, bg: u8, fg: u8) -> (r: String)
    ensures
        r@ == styled_seq(content@, bg, fg),
{
    crossterm::style::style(content).on(crossterm::style::Color::AnsiValue(bg)).with(
        crossterm::style::Color::AnsiValue(fg),
    ).to_string()
}

} // verus!
