//! Reading user settings: the values the settings store hands back are
//! cleaned up here before the app relies on them.

use crate::text::{is_blank, is_blank_str};
use vstd::prelude::*;

verus! {

/// A text setting that counts as set: present and not blank.
pub open spec fn nonblank_view(raw: Option<Seq<char>>) -> Option<Seq<char>> {
    match raw {
        Some(s) => if is_blank(s) {
            None
        } else {
            Some(s)
        },
        None => None,
    }
}

/// A text setting as read from the store, kept only when it is not blank
/// (whitespace only counts as unset).
pub fn nonblank(raw: Option<String>) -> (r: Option<String>)
    ensures
        match r {
            Some(s) => nonblank_view(
                match raw {
                    Some(t) => Some(t@),
                    None => None,
                },
            ) == Some(s@),
            None => nonblank_view(
                match raw {
                    Some(t) => Some(t@),
                    None => None,
                },
            ) is None,
        },
{
    match raw {
        Some(s) => {
            if is_blank_str(s.as_str()) {
                None
            } else {
                Some(s)
            }
        },
        None => None,
    }
}

} // verus!
