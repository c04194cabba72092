//! A text buffer with an editing mode: normal, insert or replace. Changing
//! the mode keeps the text, the line lengths and the cursor.
use vstd::prelude::*;

use crate::edit_buffer::{
    count_lines, line_text, rope_chars, rope_from_bytes, rope_len_lines, rope_line, rope_to_string,
};
use crate::errors::Result;
use crate::text;

verus! {

/// The editing mode of a buffer.
#[derive(Clone, Copy, Debug, PartialEq, Eq, Structural)]
pub enum Mode {
    Normal,
    Insert,
    Replace,
}

/// A buffer's text, the number of characters in each of its lines
/// (`window`), and its cursor, in one of three modes.
pub enum Buffer {
    Normal { buf: ropey::Rope, window: Vec<u64>, cursor: (u64, u64) },
    Insert { buf: ropey::Rope, window: Vec<u64>, cursor: (u64, u64) },
    Replace { buf: ropey::Rope, window: Vec<u64>, cursor: (u64, u64) },
}

/// The number of characters in each line of `t`, its line break included.
pub open spec fn line_lengths(t: Seq<char>) -> Seq<u64> {
    Seq::new(count_lines(t), |l: int| line_text(t, l).len() as u64)
}

impl Buffer {
    /// The buffer's mode.
    pub open spec fn mode(&self) -> Mode {
        match self {
            Buffer::Normal { .. } => Mode::Normal,
            Buffer::Insert { .. } => Mode::Insert,
            Buffer::Replace { .. } => Mode::Replace,
        }
    }

    /// The buffer's text.
    pub open spec fn text(&self) -> Seq<char> {
        match self {
            Buffer::Normal { buf, .. } => rope_chars(*buf),
            Buffer::Insert { buf, .. } => rope_chars(*buf),
            Buffer::Replace { buf, .. } => rope_chars(*buf),
        }
    }

    /// The buffer's line lengths.
    pub open spec fn window(&self) -> Seq<u64> {
        match self {
            Buffer::Normal { window, .. } => window@,
            Buffer::Insert { window, .. } => window@,
            Buffer::Replace { window, .. } => window@,
        }
    }

    /// The buffer's cursor.
    pub open spec fn cursor(&self) -> (u64, u64) {
        match self {
            Buffer::Normal { cursor, .. } => *cursor,
            Buffer::Insert { cursor, .. } => *cursor,
            Buffer::Replace { cursor, .. } => *cursor,
        }
    }

    /// `new` holds the same text, line lengths and cursor as this buffer.
    pub open spec fn same_content(&self, new: Buffer) -> bool {
        &&& new.text() == self.text()
        &&& new.window() == self.window()
        &&& new.cursor() == self.cursor()
    }

    /// An empty buffer in normal mode, with no line lengths and the cursor
    /// at (0, 0).
    pub fn default() -> (r: Buffer)
        ensures
            r.mode() == Mode::Normal,
            r.text() == Seq::<char>::empty(),
            r.window() == Seq::<u64>::empty(),
            r.cursor() == (0u64, 0u64),
    {
        let bytes: Vec<u8> = Vec::new();
        let buf = rope_from_bytes(bytes.as_slice());
        assert(bytes@ =~= Seq::<u8>::empty());
        Buffer::Normal { buf: buf.unwrap(), window: Vec::new(), cursor: (0, 0) }
    }

    /// A buffer in normal mode of the UTF-8 text in `data`, with the length
    /// of each of its lines and the cursor at (1, 1); an `IOError` when
    /// `data` is not UTF-8.
    pub fn new(data: &[u8]) -> (r: Result<Buffer>)
        ensures
            match r {
                Ok(b) => {
                    &&& vstd::utf8::valid_utf8(data@)
                    &&& b.mode() == Mode::Normal
                    &&& b.text() == vstd::utf8::decode_utf8(data@)
                    &&& b.window() == line_lengths(b.text())
                    &&& b.cursor() == (1u64, 1u64)
                },
                Err(e) => !vstd::utf8::valid_utf8(data@) && e is IOError,
            },
    {
        let buf = match rope_from_bytes(data) {
            Some(b) => b,
            None => {
                return Err(
                    crate::errors::Error::IOError(
                        text::str_to_string("stream did not contain valid UTF-8"),
                    ),
                );
            },
        };
        let ghost t = rope_chars(buf);
        let n = rope_len_lines(&buf);
        let mut window: Vec<u64> = Vec::new();
        let mut l: usize = 0;
        while l < n
            invariant
                l <= n,
                n == count_lines(t),
                t == rope_chars(buf),
                window@ == line_lengths(t).take(l as int),
            decreases n - l,
        {
            let line = rope_line(&buf, l);
            window.push(line.len() as u64);
            assert(window@ =~= line_lengths(t).take(l + 1));
            l = l + 1;
        }
        assert(window@ =~= line_lengths(t));
        Ok(Buffer::Normal { buf, window, cursor: (1, 1) })
    }

    /// The buffer in insert mode, with the same content.
    pub fn into_insert(self) -> (r: Buffer)
        ensures
            r.mode() == Mode::Insert,
            self.same_content(r),
    {
        match self {
            Buffer::Normal { buf, window, cursor } => Buffer::Insert { buf, window, cursor },
            Buffer::Insert { buf, window, cursor } => Buffer::Insert { buf, window, cursor },
            Buffer::Replace { buf, window, cursor } => Buffer::Insert { buf, window, cursor },
        }
    }

    /// The buffer in replace mode, with the same content.
    pub fn into_replace(self) -> (r: Buffer)
        ensures
            r.mode() == Mode::Replace,
            self.same_content(r),
    {
        match self {
            Buffer::Normal { buf, window, cursor } => Buffer::Replace { buf, window, cursor },
            Buffer::Insert { buf, window, cursor } => Buffer::Replace { buf, window, cursor },
            Buffer::Replace { buf, window, cursor } => Buffer::Replace { buf, window, cursor },
        }
    }

    /// The buffer in normal mode, with the same content.
    pub fn into_normal(self) -> (r: Buffer)
        ensures
            r.mode() == Mode::Normal,
            self.same_content(r),
    {
        match self {
            Buffer::Normal { buf, window, cursor } => Buffer::Normal { buf, window, cursor },
            Buffer::Insert { buf, window, cursor } => Buffer::Normal { buf, window, cursor },
            Buffer::Replace { buf, window, cursor } => Buffer::Normal { buf, window, cursor },
        }
    }

    /// The buffer's text.
    pub fn to_string(&self) -> (r: String)
        ensures
            r@ == self.text(),
    {
        match self {
            Buffer::Normal { buf, .. } => rope_to_string(buf),
            Buffer::Insert { buf, .. } => rope_to_string(buf),
            Buffer::Replace { buf, .. } => rope_to_string(buf),
        }
    }
}

} // verus!
