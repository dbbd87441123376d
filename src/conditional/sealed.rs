use vstd::prelude::*;

verus! {

/// Closes [`crate::GlobalBoolean`] to its two types in this crate.
pub trait SealedBoolean {

}

impl SealedBoolean for super::GlobalTrue {

}

impl SealedBoolean for super::GlobalFalse {

}

} // verus!
