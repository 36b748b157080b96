use vstd::prelude::*;
use core::marker::PhantomData;

verus! {

/// A typed index into one of the graph's arrays. The phantom parameter keeps
/// handles for different arrays from being mixed up; only the index carries data.
pub struct IndexHandle<T> {
    pub index: usize,
    pub _marker: PhantomData<T>,
}

impl<T> IndexHandle<T> {
    pub fn new(index: usize) -> (r: Self)
        ensures
            r.index == index,
    {
        IndexHandle { index, _marker: PhantomData }
    }
}

impl<T> Clone for IndexHandle<T> {
    fn clone(&self) -> (r: Self)
        ensures
            r == *self,
    {
        IndexHandle { index: self.index, _marker: PhantomData }
    }
}

impl<T> Copy for IndexHandle<T> {}

impl<T> PartialEq for IndexHandle<T> {
    fn eq(&self, other: &Self) -> (r: bool) {
        self.index == other.index
    }
}

impl<T> vstd::std_specs::cmp::PartialEqSpecImpl for IndexHandle<T> {
    open spec fn obeys_eq_spec() -> bool {
        true
    }

    open spec fn eq_spec(&self, other: &Self) -> bool {
        self.index == other.index
    }
}

impl<T> Eq for IndexHandle<T> {}

} // verus!
