//! The library's error type.
use vstd::prelude::*;

use crate::text;

verus! {

/// Why an operation of the library failed; each kind carries a message.
#[derive(Clone, Debug)]
pub enum Error {
    KeyNotFound(String),
    Fatal(String),
    IOError(String),
    InvalidDate(String),
    InvalidJson(String),
    InvalidFile(String),
    InvalidInput(String),
    ConvertFail(String),
    NoEdit(String),
    NotFound(String),
}

/// Results of the library.
pub type Result<T> = core::result::Result<T, Error>;

impl Error {
    /// The name of the error's kind.
    pub open spec fn kind_name(self) -> Seq<char> {
        match self {
            Error::KeyNotFound(_) => "KeyNotFound"@,
            Error::Fatal(_) => "Fatal"@,
            Error::IOError(_) => "IOError"@,
            Error::InvalidDate(_) => "InvalidDate"@,
            Error::InvalidJson(_) => "InvalidJson"@,
            Error::InvalidFile(_) => "InvalidFile"@,
            Error::InvalidInput(_) => "InvalidInput"@,
            Error::ConvertFail(_) => "ConvertFail"@,
            Error::NoEdit(_) => "NoEdit"@,
            Error::NotFound(_) => "NotFound"@,
        }
    }

    /// The message that the error carries.
    pub open spec fn message(self) -> Seq<char> {
        match self {
            Error::KeyNotFound(m) => m@,
            Error::Fatal(m) => m@,
            Error::IOError(m) => m@,
            Error::InvalidDate(m) => m@,
            Error::InvalidJson(m) => m@,
            Error::InvalidFile(m) => m@,
            Error::InvalidInput(m) => m@,
            Error::ConvertFail(m) => m@,
            Error::NoEdit(m) => m@,
            Error::NotFound(m) => m@,
        }
    }

    /// The error as text: its kind, a colon and its message.
    pub fn to_string(&self) -> (r: String)
        ensures
            r@ == self.kind_name() + ":"@ + self.message(),
    {
        let (kind, msg): (&str, &String) = match self {
            Error::KeyNotFound(m) => ("KeyNotFound:", m),
            Error::Fatal(m) => ("Fatal:", m),
            Error::IOError(m) => ("IOError:", m),
            Error::InvalidDate(m) => ("InvalidDate:", m),
            Error::InvalidJson(m) => ("InvalidJson:", m),
            Error::InvalidFile(m) => ("InvalidFile:", m),
            Error::InvalidInput(m) => ("InvalidInput:", m),
            Error::ConvertFail(m) => ("ConvertFail:", m),
            Error::NoEdit(m) => ("NoEdit:", m),
            Error::NotFound(m) => ("NotFound:", m),
        };
        proof {
            reveal_strlit("KeyNotFound:");
            reveal_strlit("KeyNotFound");
            reveal_strlit("Fatal:");
            reveal_strlit("Fatal");
            reveal_strlit("IOError:");
            reveal_strlit("IOError");
            reveal_strlit("InvalidDate:");
            reveal_strlit("InvalidDate");
            reveal_strlit("InvalidJson:");
            reveal_strlit("InvalidJson");
            reveal_strlit("InvalidFile:");
            reveal_strlit("InvalidFile");
            reveal_strlit("InvalidInput:");
            reveal_strlit("InvalidInput");
            reveal_strlit("ConvertFail:");
            reveal_strlit("ConvertFail");
            reveal_strlit("NoEdit:");
            reveal_strlit("NoEdit");
            reveal_strlit("NotFound:");
            reveal_strlit("NotFound");
            reveal_strlit(":");
        }
        let r = text::concat(kind, msg.as_str());
        assert(r@ =~= self.kind_name() + ":"@ + self.message());
        r
    }
}

} // verus!
