//! The slot pair every differential feature (damper, trim, strain comp) is
//! configured against.

use vstd::prelude::*;

verus! {

#[derive(Clone, Copy, Debug, PartialEq, Eq, Structural)]
pub struct SlotPair {
    pub a: u8,
    pub b: u8,
}

} // verus!
