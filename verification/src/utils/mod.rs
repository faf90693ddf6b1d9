pub mod const_checks;
pub mod text;

use std::marker::PhantomData;

use vstd::prelude::*;

verus! {

/// Like `PhantomData<T>`: ties a type to `T` without holding a value of it.
pub struct PhantomBound<T> {
    _inner: PhantomData<T>,
}

impl<T> PhantomBound<T> {
    pub fn new() -> Self {
        PhantomBound { _inner: PhantomData }
    }
}

} // verus!
