//! A fixed-length array whose length is given by a bitstring.
use vstd::prelude::*;

use crate::bits::{Bitstring, Tape};
use crate::model::value;

verus! {

/// The error of building an [`Array`] from a slice of the wrong length.
#[derive(Clone, Copy, Debug, PartialEq, Eq, Structural)]
pub struct BadLength {
    /// The slice's length.
    pub found: usize,
    /// The length the array has.
    pub expected: usize,
}

/// An array whose length is fixed when it is built, as the value of a
/// bitstring; no method changes it.
#[derive(Debug)]
pub struct Array<T> {
    items: Vec<T>,
}

impl<T> View for Array<T> {
    type V = Seq<T>;

    closed spec fn view(&self) -> Seq<T> {
        self.items@
    }
}

impl<T> Array<T> {
    /// The number of elements.
    pub fn len(&self) -> (r: usize)
        ensures
            r == self@.len(),
    {
        self.items.len()
    }

    /// The elements, in order.
    pub fn as_slice(&self) -> (r: &[T])
        ensures
            r@ == self@,
    {
        self.items.as_slice()
    }

    /// The element at `index`.
    pub fn get(&self, index: usize) -> (r: &T)
        requires
            index < self@.len(),
        ensures
            *r == self@[index as int],
    {
        &self.items[index]
    }

    /// Replaces the element at `index`.
    pub fn set(&mut self, index: usize, item: T)
        requires
            index < old(self)@.len(),
        ensures
            final(self)@ == old(self)@.update(index as int, item),
    {
        self.items.set(index, item);
    }
}

impl<T: Copy> Array<T> {
    /// Copies a slice of exactly `value(size)` elements into an array.
    pub fn try_from_slice(size: &Tape, slice: &[T]) -> (r: Result<Array<T>, BadLength>)
        requires
            value(size@) <= usize::MAX,
        ensures
            match r {
                Ok(a) => slice@.len() == value(size@) && a@ == slice@,
                Err(e) => slice@.len() != value(size@) && e == (BadLength {
                    found: slice@.len() as usize,
                    expected: value(size@) as usize,
                }),
            },
    {
        let expected = size.unsigned();
        if slice.len() != expected {
            return Err(BadLength { found: slice.len(), expected });
        }
        Ok(Self::from_slice(size, slice))
    }

    /// Copies a slice of exactly `value(size)` elements into an array.
    pub fn from_slice(size: &Tape, slice: &[T]) -> (r: Array<T>)
        requires
            slice@.len() == value(size@),
        ensures
            r@ == slice@,
    {
        Array { items: vstd::slice::slice_to_vec(slice) }
    }
}

/// Clones each element of a slice, in order.
fn clone_items<T: Clone>(slice: &[T]) -> (r: Vec<T>)
    ensures
        r@.len() == slice@.len(),
        forall|i: int| 0 <= i < slice@.len() ==> cloned(slice@[i], #[trigger] r@[i]),
{
    let mut items: Vec<T> = Vec::new();
    let mut i: usize = 0;
    while i < slice.len()
        invariant
            i <= slice@.len(),
            items@.len() == i,
            forall|k: int| 0 <= k < i ==> cloned(slice@[k], #[trigger] items@[k]),
        decreases slice@.len() - i,
    {
        items.push(slice[i].clone());
        i = i + 1;
    }
    items
}

impl<T: Clone> Clone for Array<T> {
    fn clone(&self) -> (r: Array<T>)
        ensures
            r@.len() == self@.len(),
            forall|i: int| 0 <= i < self@.len() ==> cloned(self@[i], #[trigger] r@[i]),
    {
        Array { items: clone_items(self.items.as_slice()) }
    }
}

impl<T: Clone> Array<T> {
    /// Clones a slice of exactly `value(size)` elements into an array.
    pub fn try_new_from_slice(size: &Tape, slice: &[T]) -> (r: Result<Array<T>, BadLength>)
        requires
            value(size@) <= usize::MAX,
        ensures
            match r {
                Ok(a) => {
                    &&& slice@.len() == value(size@)
                    &&& a@.len() == slice@.len()
                    &&& forall|i: int| 0 <= i < slice@.len() ==> cloned(slice@[i], #[trigger] a@[i])
                },
                Err(e) => slice@.len() != value(size@) && e == (BadLength {
                    found: slice@.len() as usize,
                    expected: value(size@) as usize,
                }),
            },
    {
        let expected = size.unsigned();
        if slice.len() != expected {
            return Err(BadLength { found: slice.len(), expected });
        }
        Ok(Self::new_from_slice(size, slice))
    }

    /// Clones a slice of exactly `value(size)` elements into an array.
    pub fn new_from_slice(size: &Tape, slice: &[T]) -> (r: Array<T>)
        requires
            slice@.len() == value(size@),
        ensures
            r@.len() == slice@.len(),
            forall|i: int| 0 <= i < slice@.len() ==> cloned(slice@[i], #[trigger] r@[i]),
    {
        Array { items: clone_items(slice) }
    }

    /// Clones a slice of exactly `value(size)` elements into a boxed array.
    pub fn try_new_boxed_from_slice(size: &Tape, slice: &[T]) -> (r: Result<Box<Array<T>>, BadLength>)
        requires
            value(size@) <= usize::MAX,
        ensures
            match r {
                Ok(a) => {
                    &&& slice@.len() == value(size@)
                    &&& a@.len() == slice@.len()
                    &&& forall|i: int| 0 <= i < slice@.len() ==> cloned(slice@[i], #[trigger] a@[i])
                },
                Err(e) => slice@.len() != value(size@) && e == (BadLength {
                    found: slice@.len() as usize,
                    expected: value(size@) as usize,
                }),
            },
    {
        match Self::try_new_from_slice(size, slice) {
            Ok(a) => Ok(Box::new(a)),
            Err(e) => Err(e),
        }
    }

    /// Clones a slice of exactly `value(size)` elements into a boxed array.
    pub fn new_boxed_from_slice(size: &Tape, slice: &[T]) -> (r: Box<Array<T>>)
        requires
            slice@.len() == value(size@),
        ensures
            r@.len() == slice@.len(),
            forall|i: int| 0 <= i < slice@.len() ==> cloned(slice@[i], #[trigger] r@[i]),
    {
        Box::new(Self::new_from_slice(size, slice))
    }
}

impl<T: Default> Array<T> {
    /// An array of `value(size)` default elements.
    pub fn new(size: &Tape) -> (r: Array<T>)
        requires
            value(size@) <= usize::MAX,
        ensures
            r@.len() == value(size@),
            forall|i: int| 0 <= i < r@.len() ==> call_ensures(T::default, (), #[trigger] r@[i]),
    {
        let n = size.unsigned();
        let mut items: Vec<T> = Vec::new();
        let mut i: usize = 0;
        while i < n
            invariant
                i <= n,
                items@.len() == i,
                forall|k: int| 0 <= k < i ==> call_ensures(T::default, (), #[trigger] items@[k]),
            decreases n - i,
        {
            items.push(T::default());
            i = i + 1;
        }
        Array { items }
    }

    /// A boxed array of `value(size)` default elements.
    pub fn new_boxed(size: &Tape) -> (r: Box<Array<T>>)
        requires
            value(size@) <= usize::MAX,
        ensures
            r@.len() == value(size@),
            forall|i: int| 0 <= i < r@.len() ==> call_ensures(T::default, (), #[trigger] r@[i]),
    {
        Box::new(Self::new(size))
    }
}

} // verus!
