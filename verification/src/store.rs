//! The corpus store: an owned, ordered collection of items, created
//! fresh for each search invocation and discarded after the results are
//! extracted.

use vstd::prelude::*;

verus! {

/// An in-memory corpus.  It owns its items exclusively; the engine
/// borrows them for the duration of one ranking pass.
pub struct Store<T> {
    /// The items, in insertion order.
    pub data: Vec<T>,
}

impl<T> Store<T> {
    /// The item at `index`, if there is one.
    pub fn get(&self, index: usize) -> (r: Option<&T>)
        ensures
            index < self.data@.len() ==> r == Some(&self.data@[index as int]),
            index >= self.data@.len() ==> r is None,
    {
        if index < self.data.len() {
            Some(&self.data[index])
        } else {
            None
        }
    }

    /// The number of items held.
    pub fn len(&self) -> (r: usize)
        ensures
            r == self.data@.len(),
    {
        self.data.len()
    }
}

impl<T> From<Vec<T>> for Store<T> {
    fn from(data: Vec<T>) -> (r: Store<T>) {
        Store { data }
    }
}

impl<T> vstd::std_specs::convert::FromSpecImpl<Vec<T>> for Store<T> {
    open spec fn obeys_from_spec() -> bool {
        true
    }

    open spec fn from_spec(data: Vec<T>) -> Store<T> {
        Store { data }
    }
}

} // verus!
