//! The key under which a context pool stores an entry.

use vstd::prelude::*;

verus! {

/// A slot of a pool together with the generation of the entry that was put there.
///
/// Two handles are equal exactly when both parts are equal, so that a slot which
/// is reused later is never mistaken for its earlier tenant.
#[derive(Clone, Copy, Debug, PartialEq, Eq, PartialOrd, Ord, Hash, Structural)]
pub struct Handle {
    pub slot: usize,
    pub generation: u64,
}

} // verus!
