//! The retrieval interface: a retriever binds a ranking engine to a
//! corpus store and exposes "top N items for this query".

use vstd::prelude::*;

use crate::rankers::RankError;
use crate::store::Store;

verus! {

/// A component that answers "the best `max_num_results` items of this
/// store for this query".  Each implementation states what it demands
/// of its inputs and what it promises of its output through the two
/// spec functions.
pub trait Retriever<T, U>: Sized {
    /// What the implementation demands of the query and the corpus.
    spec fn retrieve_pre(&self, query: T, data: Seq<U>) -> bool;

    /// What the implementation promises of the result.
    spec fn retrieve_post(
        &self,
        query: T,
        data: Seq<U>,
        max_num_results: int,
        r: Result<Vec<U>, RankError>,
    ) -> bool;

    /// Retrieves the best `max_num_results` items of `store` for
    /// `query`.
    fn retrieve(&self, query: T, store: Store<U>, max_num_results: usize) -> (r: Result<
        Vec<U>,
        RankError,
    >)
        requires
            self.retrieve_pre(query, store.data@),
        ensures
            self.retrieve_post(query, store.data@, max_num_results as int, r),
    ;
}

} // verus!
