//! Who may use the watch list.

use vstd::prelude::*;
use crate::decimal::{decimal_i64, parse_i64};

verus! {

/// Whether the chat `chat` is let in under the setting `allowed`. A setting
/// that is a signed decimal number lets in the chat with that number and no
/// other; without a setting, or with one that is no such number, every chat
/// is let in.
pub open spec fn admitted(allowed: Option<Seq<char>>, chat: i64) -> bool {
    match allowed {
        Some(text) => match decimal_i64(text) {
            Some(id) => id == chat,
            None => true,
        },
        None => true,
    }
}

/// Decides whether the chat `chat` is let in under the setting `allowed`.
pub fn admits(allowed: Option<&str>, chat: i64) -> (r: bool)
    ensures
        r == admitted(
            match allowed {
                Some(text) => Some(text@),
                None => None,
            },
            chat,
        ),
{
    match allowed {
        Some(text) => match parse_i64(text) {
            Some(id) => id == chat,
            None => true,
        },
        None => true,
    }
}

} // verus!
