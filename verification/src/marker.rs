//! The marker: the version token of the manifest that was installed last,
//! kept in a file at the root of the target tree.

use vstd::prelude::*;

verus! {

/// The name of the marker file, at the root of the target tree.
pub const ETAG_FILE: &'static str = "patcher.etag";

/// What the marker says, given what is stored: the stored value, or the
/// empty string where nothing is stored.
pub open spec fn marker_value(stored: Option<Seq<char>>) -> Seq<char> {
    match stored {
        Some(value) => value,
        None => Seq::empty(),
    }
}

/// The version token that was installed last, given what reading the marker
/// file gave: its text, or nothing where the file is absent or cannot be
/// read. A tree that was never patched has the empty token.
pub fn get_etag(stored: Option<String>) -> (value: String)
    ensures
        value@ == marker_value(
            match stored {
                Some(text) => Some(text@),
                None => None,
            },
        ),
{
    match stored {
        Some(text) => text,
        None => String::new(),
    }
}

} // verus!
