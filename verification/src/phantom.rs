//! A marker that stands for a type without holding a value of it.

use vstd::prelude::*;

verus! {

/// A value that holds nothing and only names the type `T`.
#[derive(Debug, Hash)]
pub struct Phantom<T: ?Sized> {
    phantom_data: core::marker::PhantomData<T>,
}

/// A marker for a type that is only taken.
pub type Contravariant<T> = Phantom<fn(T)>;

/// A marker for a type that is only given.
pub type Covariant<T> = Phantom<T>;

/// A marker for a type that is both taken and given.
pub type Invariant<T> = Phantom<fn(T) -> T>;

/// A marker for a lifetime.
pub type Lifetime<'a> = Phantom<&'a ()>;

impl<T: ?Sized> Phantom<T> {
    pub fn new() -> Self {
        Phantom { phantom_data: core::marker::PhantomData }
    }
}

impl<T: ?Sized> Clone for Phantom<T> {
    fn clone(&self) -> Self {
        Self::new()
    }
}

impl<T: ?Sized> Copy for Phantom<T> {

}

impl<T: ?Sized> Default for Phantom<T> {
    fn default() -> Self {
        Self::new()
    }
}

} // verus!
