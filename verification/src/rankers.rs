//! The interface between the ranking engine and the items it ranks: a
//! rendering capability, and the scored result record.

use vstd::prelude::*;

verus! {

/// An item that the engine can rank: it renders itself as text, and the
/// engine scores that text.  `wf` is the item's well-formedness
/// condition; rendering is only owed on well-formed items.
pub trait Render: Sized {
    /// The item is fit to be rendered.
    spec fn wf(&self) -> bool;

    /// The text that the item renders to.
    spec fn text(&self) -> Seq<char>;

    /// Renders the item as text.
    fn render(&self) -> (r: String)
        requires
            self.wf(),
        ensures
            r@ == self.text(),
    ;
}

impl Render for String {
    open spec fn wf(&self) -> bool {
        true
    }

    open spec fn text(&self) -> Seq<char> {
        self@
    }

    fn render(&self) -> (r: String) {
        self.clone()
    }
}

/// One scored item.  The score is a BM25 relevance value in millionths
/// of a unit (see `crate::fixed`); results compare by score alone.
pub struct RankingResult<T> {
    /// The item's relevance score, in millionths.
    pub score: u64,
    /// The scored item.
    pub item: T,
}

/// The failure of a ranking pass.  An empty corpus is the only defined
/// failure: the average document length would divide by the corpus
/// size.
#[derive(Debug)]
pub enum RankError {
    /// The corpus handed to the engine held no items.
    EmptyCorpus,
}

impl RankError {
    /// A short diagnostic text.
    pub fn message(&self) -> (r: String)
        ensures
            r@ == "cannot rank an empty corpus"@,
    {
        "cannot rank an empty corpus".to_owned()
    }
}

} // verus!
