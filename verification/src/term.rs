//! The full-screen page that creates a workspace, and what a key press asks
//! of the terminal's main loop.
use vstd::prelude::*;

use crate::errors::Result;
use crate::event::{key_code_of, Event, KeyCode};
use crate::term_elements::Viewport;
use crate::text;

verus! {

/// The page that creates a workspace, over the whole terminal.
pub struct PageNewWorkspace {
    coord: Viewport,
}

impl PageNewWorkspace {
    /// The region of the terminal the page covers.
    pub closed spec fn sp_coord(&self) -> Viewport {
        self.coord
    }

    /// A page over `coord`.
    pub fn new(coord: Viewport) -> (r: Result<PageNewWorkspace>)
        ensures
            r matches Ok(p) && p.sp_coord() == coord,
    {
        Ok(PageNewWorkspace { coord })
    }

    /// The page's address.
    pub fn to_url() -> (r: String)
        ensures
            r@ == "/workspace/new"@,
    {
        text::str_to_string("/workspace/new")
    }
}

/// What the main loop does after a key: 1 (stop) for the key `q`, 0 (go
/// on) for any other event.
pub fn handle_key_event(event: Event) -> (r: u32)
    ensures
        r == if key_code_of(event) == Some(KeyCode::Char('q')) {
            1u32
        } else {
            0u32
        },
{
    match event.to_key_code() {
        Some(KeyCode::Char('q')) => 1,
        _ => 0,
    }
}

} // verus!
