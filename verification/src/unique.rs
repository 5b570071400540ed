//! Shared handles to values, placed through a global map of values.
use std::rc::Rc;
use vstd::prelude::*;

verus! {

/// A place that hands out the shared copy of a value.
pub trait GlobalMap<T> {
    /// Hands back the shared copy of `v`, which holds the same value.
    fn insert(&self, v: Rc<T>) -> (r: Rc<T>)
        ensures
            *r == *v,
    ;
}

/// A shared handle to a value, obtained through a global map.
#[derive(Debug)]
pub struct Unique<Q: GlobalMap<T>, T> {
    pub data: Rc<T>,
    pub q: Q,
}

/// `Rc::clone`: a second handle to the same value.
#[verifier::external_body]
pub(crate) fn rc_clone<T>(r: &Rc<T>) -> (res: Rc<T>)
    ensures
        res == *r,
{
    r.clone()
}

impl<Q: GlobalMap<T>, T> Unique<Q, T> {
    /// Places `data` through `q` and keeps the handle it gives back.
    pub fn new(data: Rc<T>, q: Q) -> (r: Self)
        ensures
            *r.data == *data,
            r.q == q,
    {
        let data = q.insert(data);
        Self { data, q }
    }

    /// The value behind the handle.
    pub fn get_ref(&self) -> (r: &T)
        ensures
            *r == *self.data,
    {
        &*self.data
    }
}

impl<Q: GlobalMap<T>, T: Clone> Unique<Q, T> {
    /// A copy of the value behind the handle.
    pub fn clone_inner(&self) -> (r: T)
        ensures
            cloned(*self.data, r),
    {
        (*self.data).clone()
    }
}

impl<Q: GlobalMap<T> + Copy, T> Clone for Unique<Q, T> {
    fn clone(&self) -> (r: Self)
        ensures
            r == *self,
    {
        Unique { data: rc_clone(&self.data), q: self.q }
    }
}

/// A cached value that takes no part in comparisons: any two caches are equal.
pub struct Cache<T>(pub T);

impl<T> PartialEq for Cache<T> {
    fn eq(&self, other: &Self) -> (r: bool) {
        true
    }
}

impl<T> vstd::std_specs::cmp::PartialEqSpecImpl for Cache<T> {
    open spec fn obeys_eq_spec() -> bool {
        true
    }

    open spec fn eq_spec(&self, other: &Self) -> bool {
        true
    }
}

} // verus!
