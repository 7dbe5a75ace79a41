//! Byte strings in sequence.

use vstd::prelude::*;

verus! {

/// The byte strings `parts`, one after the other.
pub open spec fn join(parts: Seq<Seq<u8>>) -> Seq<u8>
    decreases parts.len(),
{
    if parts.len() == 0 {
        Seq::empty()
    } else {
        parts.first() + join(parts.drop_first())
    }
}

/// The contents of a list of byte vectors.
pub open spec fn byte_views(parts: Seq<Vec<u8>>) -> Seq<Seq<u8>> {
    parts.map_values(|v: Vec<u8>| v@)
}

} // verus!
