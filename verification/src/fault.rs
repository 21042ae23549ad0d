//! Inputs that a reading cannot be made of.

use vstd::prelude::*;

verus! {

/// Why a reading was given up.
#[derive(Clone, Copy, PartialEq, Eq, Structural, Debug)]
pub enum Fault {
    /// A sum of counters is more than 64 bits hold.
    Overflow,
    /// A piece of text would have to be cut out across its end or inside a character.
    Slice,
}

} // verus!
