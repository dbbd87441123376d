//! A conditional that evaluates only the branch it selects.
use vstd::prelude::*;

mod sealed;

verus! {

/// Selects between two deferred branches and runs only the selected one.
///
/// Each branch is a closure; the other is never called, so a branch that
/// would be invalid to evaluate (one that recurses past the end of a
/// bitstring, say) is safe to pass.
pub fn select<T, F: FnOnce() -> T, G: FnOnce() -> T>(cond: bool, then_branch: F, else_branch: G) -> (r: T)
    requires
        cond ==> then_branch.requires(()),
        !cond ==> else_branch.requires(()),
    ensures
        cond ==> then_branch.ensures((), r),
        !cond ==> else_branch.ensures((), r),
{
    if cond {
        then_branch()
    } else {
        else_branch()
    }
}

/// The truth, as a type.
pub struct GlobalTrue;

/// Falsehood, as a type.
pub struct GlobalFalse;

/// A boolean fixed by a type, with a conditional that selects by it.
pub trait GlobalBoolean: sealed::SealedBoolean {
    /// The boolean this type stands for.
    spec fn truth() -> bool;

    /// The boolean this type stands for.
    fn value() -> (r: bool)
        ensures
            r == Self::truth(),
    ;

    /// Runs `then_branch` where this type is true and `else_branch` where
    /// it is false; the other branch is never called.
    fn select<T, F: FnOnce() -> T, G: FnOnce() -> T>(then_branch: F, else_branch: G) -> (r: T)
        requires
            Self::truth() ==> then_branch.requires(()),
            !Self::truth() ==> else_branch.requires(()),
        ensures
            Self::truth() ==> then_branch.ensures((), r),
            !Self::truth() ==> else_branch.ensures((), r),
    ;
}

impl GlobalBoolean for GlobalTrue {
    open spec fn truth() -> bool {
        true
    }

    fn value() -> (r: bool) {
        true
    }

    fn select<T, F: FnOnce() -> T, G: FnOnce() -> T>(then_branch: F, else_branch: G) -> (r: T) {
        then_branch()
    }
}

impl GlobalBoolean for GlobalFalse {
    open spec fn truth() -> bool {
        false
    }

    fn value() -> (r: bool) {
        false
    }

    fn select<T, F: FnOnce() -> T, G: FnOnce() -> T>(then_branch: F, else_branch: G) -> (r: T) {
        else_branch()
    }
}

} // verus!
