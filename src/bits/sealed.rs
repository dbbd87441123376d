use vstd::prelude::*;

verus! {

/// Closes [`crate::Bitstring`] to the types of this crate.
pub trait SealedBitstring {

}

impl SealedBitstring for super::Bit {

}

impl SealedBitstring for super::Tape {

}

} // verus!
