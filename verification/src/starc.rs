//! A shared pointer that is either a `'static` reference or an owned,
//! reference-counted value.

use std::sync::Arc;

use vstd::prelude::*;

verus! {

/// `Arc::clone`: a new handle to the same shared value.
#[verifier::external_body]
fn clone_arc<T>(a: &Arc<T>) -> (r: Arc<T>)
    ensures
        r == *a,
{
    Arc::clone(a)
}

/// A smart pointer that can be either static or owned and ref-counted.
#[derive(Debug)]
pub enum Starc<T: 'static> {
    /// A static reference to a value.
    Static(&'static T),
    /// An owned reference-counted value.
    Owned(Arc<T>),
}

impl<T> Starc<T> {
    /// The value pointed to.
    pub open spec fn value(&self) -> T {
        match self {
            Starc::Static(v) => **v,
            Starc::Owned(v) => **v,
        }
    }

    /// Create a new `Starc` from a static value.
    pub fn new_static(value: &'static T) -> (r: Self)
        ensures
            r == Starc::Static(value),
            r.value() == *value,
    {
        Starc::Static(value)
    }

    /// Create a new `Starc` from an owned value.
    pub fn new_owned(value: T) -> (r: Self)
        ensures
            r matches Starc::Owned(_),
            r.value() == value,
    {
        Starc::Owned(Arc::new(value))
    }

    /// The value pointed to.
    pub fn get(&self) -> (r: &T)
        ensures
            *r == self.value(),
    {
        match self {
            Starc::Static(v) => v,
            Starc::Owned(v) => v,
        }
    }
}

impl<T> Clone for Starc<T> {
    fn clone(&self) -> (r: Self)
        ensures
            r == *self,
    {
        match self {
            Starc::Static(v) => Starc::Static(v),
            Starc::Owned(v) => Starc::Owned(clone_arc(v)),
        }
    }
}

} // verus!
