//! The library's error: a numeric code and a message.

use vstd::prelude::*;

use rusqlite::Error as EngineError;

use crate::engine::error_message;
use crate::text::{decimal, push_char, push_decimal};

verus! {

/// Code of an error that the engine reported.
pub const ENGINE_ERROR: i32 = -1;

/// Code of an error about a handle that is not (or no longer) live.
pub const HANDLE_ERROR: i32 = -2;

/// An error: what went wrong (`message`) and its kind (`code`).
#[derive(Debug, Clone, PartialEq)]
pub struct Error {
    pub code: i32,
    pub message: String,
}

/// The message of the error about an unknown handle of kind `kind`.
pub open spec fn handle_error_message(kind: Seq<char>, id: nat) -> Seq<char> {
    "unknown "@ + kind + " handle: "@ + decimal(id)
}

/// `e` is the error about the unknown handle `id` of kind `kind`.
pub open spec fn is_handle_error(e: Error, kind: Seq<char>, id: u32) -> bool {
    e.code == HANDLE_ERROR && e.message@ == handle_error_message(kind, id as nat)
}

/// The decimal rendering of a signed number.
pub open spec fn signed_decimal(n: int) -> Seq<char> {
    if n < 0 {
        seq!['-'] + decimal((-n) as nat)
    } else {
        decimal(n as nat)
    }
}

/// The error for a handle of kind `kind` (`"db"` or `"statement"`) that
/// names nothing live.
pub fn invalid_handle(kind: &str, id: u32) -> (e: Error)
    ensures
        is_handle_error(e, kind@, id),
{
    let mut message = String::from_str("unknown ");
    message.append(kind);
    message.append(" handle: ");
    push_decimal(&mut message, id);
    assert(message@ =~= handle_error_message(kind@, id as nat));
    Error { code: HANDLE_ERROR, message }
}

/// The error for a failure that the engine reported, carrying the engine's
/// own description of it.
pub fn map_error(err: EngineError) -> (e: Error)
    ensures
        e.code == ENGINE_ERROR,
{
    Error { code: ENGINE_ERROR, message: error_message(&err) }
}

impl Error {
    /// The error as text: the message followed by the code in brackets.
    pub fn to_string(&self) -> (s: String)
        ensures
            s@ == self.message@ + " (code: "@ + signed_decimal(self.code as int) + ")"@,
    {
        let mut s = self.message.clone();
        s.append(" (code: ");
        let ghost before = s@;
        if self.code < 0 {
            push_char(&mut s, '-');
            let magnitude: u32 = if self.code == i32::MIN {
                2147483648u32
            } else {
                (-self.code) as u32
            };
            push_decimal(&mut s, magnitude);
        } else {
            push_decimal(&mut s, self.code as u32);
        }
        assert(s@ =~= before + signed_decimal(self.code as int));
        s.append(")");
        s
    }
}

} // verus!
