//! Tokenizers.  A `Splitter` turns free text into an ordered sequence of
//! terms; three policies exist: whitespace runs, one term per Unicode
//! scalar, and whitespace together with ASCII punctuation (used for
//! code-patch text, where identifiers are punctuation-delimited).  No
//! policy lower-cases, stems or removes stop words.

use vstd::prelude::*;

use crate::text::{push_char, sep_of, spec_split, split_text, to_chars, vecs_to_strings};

verus! {

/// A tokenization policy: a pure, deterministic, total function from
/// text to an ordered sequence of terms.
pub trait Splitter: Sized {
    /// The terms that this policy extracts from `s`.
    spec fn spec_split(&self, s: Seq<char>) -> Seq<Seq<char>>;

    /// Tokenizes `s`.
    fn split(&self, s: &str) -> (r: Vec<String>)
        ensures
            r.deep_view() == self.spec_split(s@),
    ;
}

/// Splits on runs of whitespace (the default policy).
pub struct WhitespaceSplitter;

/// Splits into one term per Unicode scalar.
pub struct CharSplitter;

/// Splits on runs of whitespace and ASCII punctuation.
pub struct PuncSplitter;

impl Splitter for WhitespaceSplitter {
    open spec fn spec_split(&self, s: Seq<char>) -> Seq<Seq<char>> {
        spec_split(s, sep_of(false))
    }

    fn split(&self, s: &str) -> (r: Vec<String>) {
        let cs = to_chars(s);
        let toks = split_text(&cs, false);
        vecs_to_strings(&toks)
    }
}

impl Splitter for PuncSplitter {
    open spec fn spec_split(&self, s: Seq<char>) -> Seq<Seq<char>> {
        spec_split(s, sep_of(true))
    }

    fn split(&self, s: &str) -> (r: Vec<String>) {
        let cs = to_chars(s);
        let toks = split_text(&cs, true);
        vecs_to_strings(&toks)
    }
}

impl Splitter for CharSplitter {
    open spec fn spec_split(&self, s: Seq<char>) -> Seq<Seq<char>> {
        Seq::new(s.len(), |i: int| seq![s[i]])
    }

    fn split(&self, s: &str) -> (r: Vec<String>) {
        let cs = to_chars(s);
        let mut r: Vec<String> = Vec::new();
        let mut i: usize = 0;
        while i < cs.len()
            invariant
                i <= cs@.len(),
                cs@ == s@,
                r@.len() == i,
                forall|m: int| 0 <= m < i ==> #[trigger] r@[m]@ == seq![s@[m]],
            decreases cs@.len() - i,
        {
            let mut t = String::new();
            push_char(&mut t, cs[i]);
            proof {
                assert(t@ =~= seq![s@[i as int]]);
            }
            r.push(t);
            i += 1;
        }
        proof {
            assert(r.deep_view() =~~= self.spec_split(s@)) by {
                assert(r.deep_view().len() == s@.len());
                assert forall|m: int| 0 <= m < s@.len() implies r.deep_view()[m]
                    =~= self.spec_split(s@)[m] by {
                    assert(r@[m]@ == seq![s@[m]]);
                    assert(r.deep_view()[m] == r@[m]@);
                }
            }
        }
        r
    }
}

} // verus!
