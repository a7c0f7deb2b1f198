//! Paths as plain bytes, and the rule by which an entry of an alternates file
//! names a directory.
use vstd::prelude::*;

use crate::bytes::append;
use crate::bytes::to_owned;

verus! {

/// The byte that separates the components of a path and, in front, marks a
/// path as absolute.
pub const SEPARATOR: u8 = 0x2f;

/// Whether `path` starts at the root of the filesystem.
pub open spec fn is_absolute(path: Seq<u8>) -> bool {
    path.len() > 0 && path[0] == SEPARATOR
}

/// The path that `entry` names when it is listed by the alternates file of the
/// objects directory `base`.
///
/// An absolute entry stands for itself. Every other entry is relative to
/// `base`, the objects directory itself and not its `info` directory.
pub open spec fn joined(base: Seq<u8>, entry: Seq<u8>) -> Seq<u8> {
    if is_absolute(entry) {
        entry
    } else if base.len() == 0 || base.last() == SEPARATOR {
        base + entry
    } else {
        base.push(SEPARATOR) + entry
    }
}

/// Compute the path that `entry` names when listed in the alternates file of
/// the objects directory `base`.
pub fn join(base: &[u8], entry: &[u8]) -> (path: Vec<u8>)
    ensures
        path@ == joined(base@, entry@),
{
    if entry.len() > 0 && entry[0] == SEPARATOR {
        return to_owned(entry);
    }
    let mut path = to_owned(base);
    if base.len() > 0 && base[base.len() - 1] != SEPARATOR {
        path.push(SEPARATOR);
    }
    append(&mut path, entry);
    path
}

} // verus!
