//! The BM25 ranking engine.
//!
//! Scores are fixed-point values in millionths (see `crate::fixed`), so
//! every score is an exact function of the query, the corpus, the
//! tokenizer and the two constants `k1` and `b`.  The inverse document
//! frequency uses the identity
//! `(N - n_t + 0.5) / (n_t + 0.5) + 1 == (2N + 2) / (2 n_t + 1)`
//! and takes the scaled logarithm of that rational; `n_t` counts the
//! corpus items whose rendered text contains the term as a substring
//! (a deliberate approximation that also credits substrings inside
//! longer words), while the term frequency counts exact token matches.

use vstd::multiset::Multiset;
use vstd::prelude::*;

use crate::fixed::{add_sat, cap64, ln_scaled, mul_div, spec_add_sat, spec_ln_scaled, spec_mul_div,
    SCALE};
use crate::rankers::{RankError, Render, RankingResult};
use crate::retrievers::Retriever;
use crate::splitters::{Splitter, WhitespaceSplitter};
use crate::store::Store;
use crate::text::{chars_eq, chars_to_string, contains_sub, spec_contains_sub, to_chars};

verus! {

/// The default term-frequency saturation constant, `k1 = 1.2`, in
/// millionths.
pub const DEFAULT_K1_SCALED: u64 = 1_200_000;

/// The default length-normalization strength, `b = 0.75`, in
/// millionths.
pub const DEFAULT_B_SCALED: u64 = 750_000;

// ---------------------------------------------------------------------
// Specification of the score
// ---------------------------------------------------------------------

/// How many members of `tokens` equal `t`.
pub open spec fn spec_count_eq(tokens: Seq<Seq<char>>, t: Seq<char>) -> int
    decreases tokens.len(),
{
    if tokens.len() == 0 {
        0
    } else {
        spec_count_eq(tokens.drop_last(), t) + if tokens.last() == t {
            1int
        } else {
            0int
        }
    }
}

/// How many members of `texts` contain `t` as a substring.
pub open spec fn spec_count_contains(texts: Seq<Seq<char>>, t: Seq<char>) -> int
    decreases texts.len(),
{
    if texts.len() == 0 {
        0
    } else {
        spec_count_contains(texts.drop_last(), t) + if spec_contains_sub(texts.last(), t) {
            1int
        } else {
            0int
        }
    }
}

/// The scaled inverse document frequency for a term held by `nt` of `n`
/// corpus items: the scaled logarithm of `(2n + 2) / (2 nt + 1)`.
pub open spec fn spec_idf(n: int, nt: int) -> int {
    spec_ln_scaled(spec_add_sat(spec_add_sat(n, n), 2), spec_add_sat(spec_add_sat(nt, nt), 1))
}

/// One term's scaled contribution to a document's score:
/// `idf * f*(k1+1) / (f + k1*(1 - b + b*dl*n/total))`, carried out in
/// saturating fixed-point arithmetic; a term that does not occur in the
/// document contributes nothing.
pub open spec fn spec_contribution(
    f: int,
    dl: int,
    n: int,
    total: int,
    k1s: int,
    bs: int,
    idf: int,
) -> int {
    if f <= 0 {
        0
    } else {
        let lenterm = spec_mul_div(spec_mul_div(bs, dl, 1), n, total);
        let norm = spec_add_sat(SCALE - bs, lenterm);
        let denom = spec_add_sat(
            spec_mul_div(f, SCALE as int, 1),
            spec_mul_div(k1s, norm, SCALE as int),
        );
        let num = spec_mul_div(f, spec_add_sat(k1s, SCALE as int), 1);
        spec_mul_div(idf, spec_mul_div(num, SCALE as int, denom), SCALE as int)
    }
}

/// The document score accumulated over the distinct query terms
/// `terms`: the saturating sum of each term's contribution.
pub open spec fn spec_score_terms(
    terms: Seq<Seq<char>>,
    dtokens: Seq<Seq<char>>,
    texts: Seq<Seq<char>>,
    total: int,
    k1s: int,
    bs: int,
) -> int
    decreases terms.len(),
{
    if terms.len() == 0 {
        0
    } else {
        let t = terms.last();
        spec_add_sat(
            spec_score_terms(terms.drop_last(), dtokens, texts, total, k1s, bs),
            spec_contribution(
                spec_count_eq(dtokens, t),
                cap64(dtokens.len() as int),
                cap64(texts.len() as int),
                total,
                k1s,
                bs,
                spec_idf(cap64(texts.len() as int), spec_count_contains(texts, t)),
            ),
        )
    }
}

/// `s` with later duplicates removed: each member keeps its first
/// occurrence.
pub open spec fn spec_dedup(s: Seq<Seq<char>>) -> Seq<Seq<char>>
    decreases s.len(),
{
    if s.len() == 0 {
        Seq::empty()
    } else {
        let rest = spec_dedup(s.drop_last());
        if rest.contains(s.last()) {
            rest
        } else {
            rest.push(s.last())
        }
    }
}

/// The total token count of the corpus under the splitter `sp`, summed
/// with saturation.
pub open spec fn spec_total_tokens<S: Splitter>(sp: S, texts: Seq<Seq<char>>) -> int
    decreases texts.len(),
{
    if texts.len() == 0 {
        0
    } else {
        spec_add_sat(
            spec_total_tokens(sp, texts.drop_last()),
            cap64(sp.spec_split(texts.last()).len() as int),
        )
    }
}

/// The BM25 score of the document rendering `doc` against `query`,
/// within the corpus of renderings `texts`.
pub open spec fn spec_doc_score<S: Splitter>(
    sp: S,
    query: Seq<char>,
    doc: Seq<char>,
    texts: Seq<Seq<char>>,
    k1s: int,
    bs: int,
) -> int {
    spec_score_terms(
        spec_dedup(sp.spec_split(query)),
        sp.spec_split(doc),
        texts,
        spec_total_tokens(sp, texts),
        k1s,
        bs,
    )
}

/// The scores of every corpus item, in corpus order.
pub open spec fn spec_doc_scores<S: Splitter>(
    sp: S,
    query: Seq<char>,
    texts: Seq<Seq<char>>,
    k1s: int,
    bs: int,
) -> Seq<int> {
    texts.map_values(|d: Seq<char>| spec_doc_score(sp, query, d, texts, k1s, bs))
}

/// Descending order on scores.
pub open spec fn score_desc() -> spec_fn(int, int) -> bool {
    |a: int, b: int| a >= b
}

/// The corpus scores in descending order: the score column of any
/// correct ranking pass.
pub open spec fn spec_ranked_scores<S: Splitter>(
    sp: S,
    query: Seq<char>,
    texts: Seq<Seq<char>>,
    k1s: int,
    bs: int,
) -> Seq<int> {
    spec_doc_scores(sp, query, texts, k1s, bs).sort_by(score_desc())
}

// ---------------------------------------------------------------------
// Executable scoring
// ---------------------------------------------------------------------

/// Counts the exact token matches of `t` in `tokens`.
fn count_eq(tokens: &Vec<Vec<char>>, t: &Vec<char>) -> (r: u64)
    ensures
        r as int == spec_count_eq(tokens.deep_view(), t@),
{
    let mut cnt: u64 = 0;
    let mut j: usize = 0;
    while j < tokens.len()
        invariant
            j <= tokens@.len(),
            cnt <= j,
            cnt as int == spec_count_eq(tokens.deep_view().take(j as int), t@),
        decreases tokens@.len() - j,
    {
        proof {
            let dv = tokens.deep_view();
            assert(dv.take(j + 1).drop_last() =~= dv.take(j as int));
            assert(dv.take(j + 1).last() == dv[j as int]);
            assert(tokens@[j as int]@ =~= dv[j as int]);
        }
        if chars_eq(&tokens[j], t) {
            cnt += 1;
        }
        j += 1;
    }
    proof {
        assert(tokens.deep_view().take(tokens@.len() as int) =~= tokens.deep_view());
    }
    cnt
}

/// Counts the corpus renderings that contain `t` as a substring.
fn count_contains(texts: &Vec<Vec<char>>, t: &Vec<char>) -> (r: u64)
    ensures
        r as int == spec_count_contains(texts.deep_view(), t@),
        r <= texts@.len(),
{
    let mut cnt: u64 = 0;
    let mut j: usize = 0;
    while j < texts.len()
        invariant
            j <= texts@.len(),
            cnt <= j,
            cnt as int == spec_count_contains(texts.deep_view().take(j as int), t@),
        decreases texts@.len() - j,
    {
        proof {
            let dv = texts.deep_view();
            assert(dv.take(j + 1).drop_last() =~= dv.take(j as int));
            assert(dv.take(j + 1).last() == dv[j as int]);
            assert(texts@[j as int]@ =~= dv[j as int]);
        }
        if contains_sub(&texts[j], t) {
            cnt += 1;
        }
        j += 1;
    }
    proof {
        assert(texts.deep_view().take(texts@.len() as int) =~= texts.deep_view());
    }
    cnt
}

/// Computes the scaled inverse document frequency.
fn idf_scaled(n: u64, nt: u64) -> (r: u64)
    requires
        nt <= n,
    ensures
        r as int == spec_idf(n as int, nt as int),
{
    let p = add_sat(add_sat(n, n), 2);
    let q = add_sat(add_sat(nt, nt), 1);
    proof {
        assert(1 <= q);
        assert(q <= p);
    }
    ln_scaled(p, q)
}

/// The inverse document frequency is never negative here: the argument
/// of the logarithm, `(2n + 2) / (2 nt + 1)`, is at least one whenever
/// `nt <= n`, which always holds because a term cannot be contained in
/// more items than the corpus has.
pub proof fn lemma_idf_nonneg(n: int, nt: int)
    ensures
        spec_idf(n, nt) >= 0,
{
}

/// Computes one term's scaled score contribution.
fn contribution(f: u64, dl: u64, n: u64, total: u64, k1s: u64, bs: u64, idf: u64) -> (r: u64)
    requires
        bs <= SCALE,
    ensures
        r as int == spec_contribution(
            f as int,
            dl as int,
            n as int,
            total as int,
            k1s as int,
            bs as int,
            idf as int,
        ),
{
    if f == 0 {
        return 0;
    }
    let lenterm = mul_div(mul_div(bs, dl, 1), n, total);
    let norm = add_sat(SCALE - bs, lenterm);
    let denom = add_sat(mul_div(f, SCALE, 1), mul_div(k1s, norm, SCALE));
    let num = mul_div(f, add_sat(k1s, SCALE), 1);
    mul_div(idf, mul_div(num, SCALE, denom), SCALE)
}

/// Every score contribution is non-negative, and so is every saturating
/// sum of contributions: BM25 scores cannot fall below zero when the
/// inverse document frequency is non-negative.
pub proof fn lemma_contribution_nonneg(
    f: int,
    dl: int,
    n: int,
    total: int,
    k1s: int,
    bs: int,
    idf: int,
)
    ensures
        spec_contribution(f, dl, n, total, k1s, bs, idf) >= 0,
{
}

/// Tokenizes a character vector under the splitter, returning the
/// tokens as character vectors.
fn split_chars<S: Splitter>(sp: &S, text: &Vec<char>) -> (r: Vec<Vec<char>>)
    ensures
        r.deep_view() == sp.spec_split(text@),
{
    let s = chars_to_string(text);
    let toks = sp.split(s.as_str());
    let mut r: Vec<Vec<char>> = Vec::new();
    let mut i: usize = 0;
    while i < toks.len()
        invariant
            i <= toks@.len(),
            r@.len() == i,
            forall|m: int| 0 <= m < i ==> #[trigger] r@[m]@ == toks@[m]@,
        decreases toks@.len() - i,
    {
        r.push(to_chars(toks[i].as_str()));
        i += 1;
    }
    proof {
        assert(r.deep_view() =~~= toks.deep_view()) by {
            assert forall|m: int| 0 <= m < toks@.len() implies r.deep_view()[m]
                =~= toks.deep_view()[m] by {
                assert(r@[m]@ == toks@[m]@);
                assert(r.deep_view()[m] =~= r@[m]@);
                assert(toks.deep_view()[m] == toks@[m]@);
            }
        }
    }
    r
}

/// Decides whether `t` already occurs among the token vectors of `v`.
fn contains_token(v: &Vec<Vec<char>>, t: &Vec<char>) -> (r: bool)
    ensures
        r == v.deep_view().contains(t@),
{
    let mut j: usize = 0;
    while j < v.len()
        invariant
            j <= v@.len(),
            forall|m: int| 0 <= m < j ==> v.deep_view()[m] != t@,
        decreases v@.len() - j,
    {
        if chars_eq(&v[j], t) {
            proof {
                assert(v.deep_view()[j as int] =~= v@[j as int]@);
                assert(v.deep_view()[j as int] == t@);
            }
            return true;
        }
        proof {
            assert(v.deep_view()[j as int] =~= v@[j as int]@);
        }
        j += 1;
    }
    false
}

/// Removes later duplicates from a token list, keeping first
/// occurrences in order: the engine scores each distinct query term
/// once.
fn dedup_tokens(v: &Vec<Vec<char>>) -> (r: Vec<Vec<char>>)
    ensures
        r.deep_view() == spec_dedup(v.deep_view()),
{
    let mut r: Vec<Vec<char>> = Vec::new();
    let mut j: usize = 0;
    while j < v.len()
        invariant
            j <= v@.len(),
            r.deep_view() == spec_dedup(v.deep_view().take(j as int)),
        decreases v@.len() - j,
    {
        proof {
            let dv = v.deep_view();
            assert(dv.take(j + 1).drop_last() =~= dv.take(j as int));
            assert(dv.take(j + 1).last() == dv[j as int]);
            assert(v@[j as int]@ =~= dv[j as int]);
        }
        if !contains_token(&r, &v[j]) {
            let tok = crate::text::copy_range(&v[j], 0, v[j].len());
            proof {
                assert(tok@ =~= v.deep_view()[j as int]);
            }
            let ghost old_dv = r.deep_view();
            r.push(tok);
            proof {
                assert(r.deep_view() =~~= old_dv.push(v.deep_view()[j as int]));
            }
        }
        j += 1;
    }
    proof {
        assert(v.deep_view().take(v@.len() as int) =~= v.deep_view());
    }
    r
}

/// Scores one document against the distinct query terms.
fn score_doc(
    qterms: &Vec<Vec<char>>,
    dtokens: &Vec<Vec<char>>,
    texts: &Vec<Vec<char>>,
    total: u64,
    k1s: u64,
    bs: u64,
) -> (r: u64)
    requires
        bs <= SCALE,
    ensures
        r as int == spec_score_terms(
            qterms.deep_view(),
            dtokens.deep_view(),
            texts.deep_view(),
            total as int,
            k1s as int,
            bs as int,
        ),
{
    let n: u64 = texts.len() as u64;
    let dl: u64 = dtokens.len() as u64;
    proof {
        assert(cap64(texts.deep_view().len() as int) == n as int);
        assert(cap64(dtokens.deep_view().len() as int) == dl as int);
    }
    let mut acc: u64 = 0;
    let mut j: usize = 0;
    while j < qterms.len()
        invariant
            j <= qterms@.len(),
            bs <= SCALE,
            n as int == cap64(texts.deep_view().len() as int),
            dl as int == cap64(dtokens.deep_view().len() as int),
            n == texts@.len(),
            acc as int == spec_score_terms(
                qterms.deep_view().take(j as int),
                dtokens.deep_view(),
                texts.deep_view(),
                total as int,
                k1s as int,
                bs as int,
            ),
        decreases qterms@.len() - j,
    {
        proof {
            let dv = qterms.deep_view();
            assert(dv.take(j + 1).drop_last() =~= dv.take(j as int));
            assert(dv.take(j + 1).last() == dv[j as int]);
            assert(qterms@[j as int]@ =~= dv[j as int]);
        }
        let f = count_eq(dtokens, &qterms[j]);
        let nt = count_contains(texts, &qterms[j]);
        let idf = idf_scaled(n, nt);
        let c = contribution(f, dl, n, total, k1s, bs, idf);
        acc = add_sat(acc, c);
        j += 1;
    }
    proof {
        assert(qterms.deep_view().take(qterms@.len() as int) =~= qterms.deep_view());
    }
    acc
}

/// Every document score is non-negative.
pub proof fn lemma_score_nonneg(
    terms: Seq<Seq<char>>,
    dtokens: Seq<Seq<char>>,
    texts: Seq<Seq<char>>,
    total: int,
    k1s: int,
    bs: int,
)
    ensures
        spec_score_terms(terms, dtokens, texts, total, k1s, bs) >= 0,
    decreases terms.len(),
{
    if terms.len() > 0 {
        lemma_score_nonneg(terms.drop_last(), dtokens, texts, total, k1s, bs);
    }
}

// ---------------------------------------------------------------------
// The ranker
// ---------------------------------------------------------------------

/// The BM25 ranking engine: a tokenizer and the two constants, both in
/// millionths.  `b_scaled` may not exceed one unit: the
/// length-normalization strength is a weight between zero and one.
pub struct BM25Ranker<S> {
    /// The term-frequency saturation constant `k1`, in millionths.
    pub k1_scaled: u64,
    /// The length-normalization strength `b`, in millionths; at most
    /// `SCALE`.
    pub b_scaled: u64,
    /// The tokenizer applied to the query and to every document.
    pub splitter: S,
}

/// Builds a `BM25Ranker` from optional parts, with named defaults.
pub struct BM25RankerBuilder<S> {
    /// The term-frequency saturation constant, in millionths.
    pub k1_scaled: u64,
    /// The length-normalization strength, in millionths.
    pub b_scaled: u64,
    /// The tokenizer.
    pub splitter: S,
}

impl BM25RankerBuilder<WhitespaceSplitter> {
    /// Starts from the defaults: `k1 = 1.2`, `b = 0.75`, whitespace
    /// tokenization.
    pub fn new() -> (r: BM25RankerBuilder<WhitespaceSplitter>)
        ensures
            r.wf(),
            r.k1_scaled == DEFAULT_K1_SCALED,
            r.b_scaled == DEFAULT_B_SCALED,
            r.splitter == WhitespaceSplitter,
    {
        BM25RankerBuilder {
            k1_scaled: DEFAULT_K1_SCALED,
            b_scaled: DEFAULT_B_SCALED,
            splitter: WhitespaceSplitter,
        }
    }
}

impl<S: Splitter> BM25RankerBuilder<S> {
    /// The builder only holds a length-normalization strength within
    /// its meaningful range.
    pub open spec fn wf(&self) -> bool {
        self.b_scaled <= SCALE
    }

    /// Sets the term-frequency saturation constant, in millionths.
    pub fn k1(self, k1_scaled: u64) -> (r: BM25RankerBuilder<S>)
        ensures
            r.k1_scaled == k1_scaled,
            r.b_scaled == self.b_scaled,
            r.splitter == self.splitter,
    {
        BM25RankerBuilder { k1_scaled, ..self }
    }

    /// Sets the length-normalization strength, in millionths; a weight
    /// of at most one unit.
    pub fn b(self, b_scaled: u64) -> (r: BM25RankerBuilder<S>)
        requires
            b_scaled <= SCALE,
        ensures
            r.b_scaled == b_scaled,
            r.k1_scaled == self.k1_scaled,
            r.splitter == self.splitter,
    {
        BM25RankerBuilder { b_scaled, ..self }
    }

    /// Replaces the tokenizer.
    pub fn splitter<S2: Splitter>(self, splitter: S2) -> (r: BM25RankerBuilder<S2>)
        ensures
            r.k1_scaled == self.k1_scaled,
            r.b_scaled == self.b_scaled,
            r.splitter == splitter,
    {
        BM25RankerBuilder { k1_scaled: self.k1_scaled, b_scaled: self.b_scaled, splitter }
    }

    /// Finishes the ranker.
    pub fn build(self) -> (r: BM25Ranker<S>)
        requires
            self.wf(),
        ensures
            r.k1_scaled == self.k1_scaled,
            r.b_scaled == self.b_scaled,
            r.splitter == self.splitter,
            r.b_scaled <= SCALE,
    {
        BM25Ranker {
            k1_scaled: self.k1_scaled,
            b_scaled: self.b_scaled,
            splitter: self.splitter,
        }
    }
}

/// The score of `p` is the BM25 score of its item within the corpus
/// renderings `texts`.
spec fn spec_scored<S: Splitter, U: Render>(
    sp: S,
    qtext: Seq<char>,
    texts: Seq<Seq<char>>,
    k1s: int,
    bs: int,
    p: RankingResult<U>,
) -> bool {
    p.score as int == spec_doc_score(sp, qtext, p.item.text(), texts, k1s, bs)
}

impl BM25Ranker<WhitespaceSplitter> {
    /// A ranker with the default constants and tokenizer.
    pub fn new() -> (r: BM25Ranker<WhitespaceSplitter>)
        ensures
            r.k1_scaled == DEFAULT_K1_SCALED,
            r.b_scaled == DEFAULT_B_SCALED,
            r.b_scaled <= SCALE,
            r.splitter == WhitespaceSplitter,
    {
        BM25Ranker::builder().build()
    }

    /// Starts a builder with the defaults.
    pub fn builder() -> (r: BM25RankerBuilder<WhitespaceSplitter>)
        ensures
            r.wf(),
            r.k1_scaled == DEFAULT_K1_SCALED,
            r.b_scaled == DEFAULT_B_SCALED,
            r.splitter == WhitespaceSplitter,
    {
        BM25RankerBuilder::new()
    }
}

impl<S: Splitter> BM25Ranker<S> {
    /// Ranks the whole corpus against `query`.
    ///
    /// On a non-empty corpus the result holds every corpus item exactly
    /// once, each with its BM25 score, in non-increasing score order;
    /// the score column equals the descending sort of the corpus score
    /// sequence.  An empty corpus is the one failure.  The order of
    /// items with equal scores is left unspecified.
    pub fn rank<T: Render, U: Render>(&self, query: &T, corpus: Vec<U>) -> (r: Result<
        Vec<RankingResult<U>>,
        RankError,
    >)
        requires
            self.b_scaled <= SCALE,
            query.wf(),
            forall|i: int| 0 <= i < corpus@.len() ==> (#[trigger] corpus@[i]).wf(),
        ensures
            r is Err <==> corpus@.len() == 0,
            r matches Ok(res) ==> {
                &&& res@.len() == corpus@.len()
                &&& res@.map_values(|p: RankingResult<U>| p.score as int) == spec_ranked_scores(
                    self.splitter,
                    query.text(),
                    corpus@.map_values(|u: U| u.text()),
                    self.k1_scaled as int,
                    self.b_scaled as int,
                )
                &&& forall|i: int|
                    0 <= i < res@.len() ==> (#[trigger] res@[i]).score as int == spec_doc_score(
                        self.splitter,
                        query.text(),
                        res@[i].item.text(),
                        corpus@.map_values(|u: U| u.text()),
                        self.k1_scaled as int,
                        self.b_scaled as int,
                    )
                &&& res@.map_values(|p: RankingResult<U>| p.item).to_multiset()
                    == corpus@.to_multiset()
                &&& forall|i: int, j: int|
                    0 <= i <= j < res@.len() ==> (#[trigger] res@[i]).score
                        >= (#[trigger] res@[j]).score
            },
    {
        broadcast use vstd::seq_lib::group_to_multiset_ensures;
        broadcast use vstd::multiset::group_multiset_axioms;

        let n = corpus.len();
        if n == 0 {
            return Err(RankError::EmptyCorpus);
        }
        let ghost sp = self.splitter;
        let ghost k1g = self.k1_scaled as int;
        let ghost bg = self.b_scaled as int;
        let ghost qtext = query.text();
        let ghost textsg = corpus@.map_values(|u: U| u.text());

        // render every corpus item once
        let mut texts: Vec<Vec<char>> = Vec::new();
        let mut i: usize = 0;
        while i < n
            invariant
                n == corpus@.len(),
                i <= n,
                texts@.len() == i,
                forall|m: int| 0 <= m < corpus@.len() ==> (#[trigger] corpus@[m]).wf(),
                forall|m: int| 0 <= m < i ==> #[trigger] texts@[m]@ == corpus@[m].text(),
            decreases n - i,
        {
            let rendered = corpus[i].render();
            texts.push(to_chars(rendered.as_str()));
            i += 1;
        }
        proof {
            assert(texts.deep_view() =~~= textsg) by {
                assert forall|m: int| 0 <= m < texts@.len() implies texts.deep_view()[m]
                    =~= textsg[m] by {
                    assert(texts.deep_view()[m] == texts@[m]@);
                }
            }
        }

        // tokenize every document and accumulate the total token count
        let mut dtoks: Vec<Vec<Vec<char>>> = Vec::new();
        let mut total: u64 = 0;
        let mut i: usize = 0;
        while i < n
            invariant
                n == corpus@.len(),
                i <= n,
                dtoks@.len() == i,
                texts@.len() == n,
                texts.deep_view() == textsg,
                sp == self.splitter,
                forall|m: int|
                    0 <= m < i ==> (#[trigger] dtoks@[m]).deep_view() == sp.spec_split(textsg[m]),
                total as int == spec_total_tokens(sp, textsg.take(i as int)),
            decreases n - i,
        {
            proof {
                assert(textsg.take(i + 1).drop_last() =~= textsg.take(i as int));
                assert(textsg.take(i + 1).last() == textsg[i as int]);
                assert(texts@[i as int]@ == textsg[i as int]);
            }
            let tk = split_chars(&self.splitter, &texts[i]);
            let tklen: u64 = tk.len() as u64;
            proof {
                assert(tk.deep_view().len() == tk@.len());
                assert(cap64(sp.spec_split(textsg[i as int]).len() as int) == tklen as int);
            }
            total = add_sat(total, tklen);
            dtoks.push(tk);
            i += 1;
        }
        proof {
            assert(textsg.take(n as int) =~= textsg);
        }

        // distinct query terms
        let qrendered = query.render();
        let qchars = to_chars(qrendered.as_str());
        let qt = split_chars(&self.splitter, &qchars);
        let qterms = dedup_tokens(&qt);
        proof {
            assert(qterms.deep_view() == spec_dedup(sp.spec_split(qtext)));
        }

        // score every document
        let mut scores: Vec<u64> = Vec::new();
        let mut i: usize = 0;
        while i < n
            invariant
                n == corpus@.len(),
                i <= n,
                scores@.len() == i,
                texts@.len() == n,
                dtoks@.len() == n,
                texts.deep_view() == textsg,
                sp == self.splitter,
                k1g == self.k1_scaled as int,
                bg == self.b_scaled as int,
                self.b_scaled <= SCALE,
                qterms.deep_view() == spec_dedup(sp.spec_split(qtext)),
                forall|m: int|
                    0 <= m < n ==> (#[trigger] dtoks@[m]).deep_view() == sp.spec_split(textsg[m]),
                total as int == spec_total_tokens(sp, textsg),
                forall|m: int|
                    0 <= m < i ==> (#[trigger] scores@[m]) as int == spec_doc_score(
                        sp,
                        qtext,
                        textsg[m],
                        textsg,
                        k1g,
                        bg,
                    ),
            decreases n - i,
        {
            let sc = score_doc(&qterms, &dtoks[i], &texts, total, self.k1_scaled, self.b_scaled);
            scores.push(sc);
            i += 1;
        }

        // pair every item with its score, consuming the corpus
        let ghost corpus0 = corpus@;
        let mut rest = corpus;
        let mut pairs: Vec<RankingResult<U>> = Vec::new();
        let mut i: usize = 0;
        while i < n
            invariant
                n == corpus0.len(),
                i <= n,
                rest@ == corpus0.skip(i as int),
                pairs@.len() == i,
                scores@.len() == n,
                forall|m: int| 0 <= m < i ==> (#[trigger] pairs@[m]).item == corpus0[m],
                forall|m: int| 0 <= m < i ==> (#[trigger] pairs@[m]).score == scores@[m],
            decreases n - i,
        {
            let item = rest.remove(0);
            proof {
                assert(corpus0.skip(i as int).remove(0) =~= corpus0.skip(i + 1));
                assert(corpus0.skip(i as int)[0] == corpus0[i as int]);
            }
            let sc = scores[i];
            pairs.push(RankingResult { score: sc, item });
            i += 1;
        }
        let ghost pairs0 = pairs@;
        let ghost fitem = |p: RankingResult<U>| p.item;
        let ghost fscore = |p: RankingResult<U>| p.score as int;
        let ghost dscores = spec_doc_scores(sp, qtext, textsg, k1g, bg);
        proof {
            assert(pairs0.map_values(fitem) =~= corpus0);
            assert(pairs0.map_values(fscore) =~= dscores) by {
                assert forall|m: int| 0 <= m < n implies pairs0.map_values(fscore)[m]
                    == dscores[m] by {
                    assert(pairs0[m].score == scores@[m]);
                }
            }
            assert forall|m: int| 0 <= m < n implies spec_scored(
                sp,
                qtext,
                textsg,
                k1g,
                bg,
                #[trigger] pairs0[m],
            ) by {
                assert(pairs0[m].item == corpus0[m]);
                assert(pairs0[m].item.text() == textsg[m]);
            }
        }

        // stable selection sort: repeatedly move the earliest maximal
        // score to the output
        let mut out: Vec<RankingResult<U>> = Vec::new();
        while pairs.len() > 0
            invariant
                out@.map_values(fitem).to_multiset().add(pairs@.map_values(fitem).to_multiset())
                    == corpus0.to_multiset(),
                out@.map_values(fscore).to_multiset().add(pairs@.map_values(fscore).to_multiset())
                    == dscores.to_multiset(),
                out@.len() + pairs@.len() == n,
                fitem == (|p: RankingResult<U>| p.item),
                fscore == (|p: RankingResult<U>| p.score as int),
                forall|m: int|
                    0 <= m < out@.len() ==> spec_scored(
                        sp,
                        qtext,
                        textsg,
                        k1g,
                        bg,
                        #[trigger] out@[m],
                    ),
                forall|m: int|
                    0 <= m < pairs@.len() ==> spec_scored(
                        sp,
                        qtext,
                        textsg,
                        k1g,
                        bg,
                        #[trigger] pairs@[m],
                    ),
                forall|a: int, b: int|
                    0 <= a <= b < out@.len() ==> (#[trigger] out@[a]).score
                        >= (#[trigger] out@[b]).score,
                forall|a: int, b: int|
                    0 <= a < out@.len() && 0 <= b < pairs@.len() ==> (#[trigger] out@[a]).score
                        >= (#[trigger] pairs@[b]).score,
            decreases pairs@.len(),
        {
            let mut m: usize = 0;
            let mut j: usize = 1;
            while j < pairs.len()
                invariant
                    pairs@.len() > 0,
                    m < j <= pairs@.len(),
                    forall|k: int| 0 <= k < j ==> (#[trigger] pairs@[k]).score <= pairs@[m as int].score,
                decreases pairs@.len() - j,
            {
                if pairs[j].score > pairs[m].score {
                    m = j;
                }
                j += 1;
            }
            let ghost old_pairs = pairs@;
            let ghost old_out = out@;
            let ghost best_g = old_pairs[m as int];
            let best = pairs.remove(m);
            out.push(best);
            proof {
                broadcast use vstd::seq_lib::group_to_multiset_ensures;
                broadcast use vstd::multiset::group_multiset_axioms;

                assert(pairs@.map_values(fscore) =~= old_pairs.map_values(fscore).remove(
                    m as int,
                ));
                assert(pairs@.map_values(fitem) =~= old_pairs.map_values(fitem).remove(m as int));
                assert(out@.map_values(fscore) =~= old_out.map_values(fscore).push(
                    fscore(best_g),
                ));
                assert(out@.map_values(fitem) =~= old_out.map_values(fitem).push(fitem(best_g)));
                let om_i = old_out.map_values(fitem);
                let pm_i = old_pairs.map_values(fitem);
                let e_i = fitem(best_g);
                assert(pm_i[m as int] == e_i);
                assert(pm_i.remove(m as int).to_multiset() == pm_i.to_multiset().remove(e_i));
                assert(om_i.push(e_i).to_multiset() == om_i.to_multiset().insert(e_i));
                assert(pm_i.contains(e_i));
                assert(pm_i.to_multiset().count(e_i) > 0);
                assert(om_i.to_multiset().insert(e_i).add(pm_i.to_multiset().remove(e_i))
                    =~= om_i.to_multiset().add(pm_i.to_multiset()));
                assert(out@.map_values(fitem).to_multiset().add(
                    pairs@.map_values(fitem).to_multiset(),
                ) =~= corpus0.to_multiset());
                let om_s = old_out.map_values(fscore);
                let pm_s = old_pairs.map_values(fscore);
                let e_s = fscore(best_g);
                assert(pm_s[m as int] == e_s);
                assert(pm_s.remove(m as int).to_multiset() == pm_s.to_multiset().remove(e_s));
                assert(om_s.push(e_s).to_multiset() == om_s.to_multiset().insert(e_s));
                assert(pm_s.contains(e_s));
                assert(pm_s.to_multiset().count(e_s) > 0);
                assert(om_s.to_multiset().insert(e_s).add(pm_s.to_multiset().remove(e_s))
                    =~= om_s.to_multiset().add(pm_s.to_multiset()));
                assert(out@.map_values(fscore).to_multiset().add(
                    pairs@.map_values(fscore).to_multiset(),
                ) =~= dscores.to_multiset());
                assert forall|b: int| 0 <= b < pairs@.len() implies out@.last().score
                    >= (#[trigger] pairs@[b]).score by {
                    if b < m {
                        assert(pairs@[b] == old_pairs[b]);
                    } else {
                        assert(pairs@[b] == old_pairs[b + 1]);
                    }
                }
            }
        }
        proof {
            assert(pairs@.map_values(fitem).to_multiset() =~= Multiset::<U>::empty());
            assert(pairs@.map_values(fscore).to_multiset() =~= Multiset::<int>::empty());
            assert(out@.map_values(fitem).to_multiset() =~= corpus0.to_multiset());
            assert(out@.map_values(fscore).to_multiset() =~= dscores.to_multiset());
            let out_scores = out@.map_values(fscore);
            let leq = score_desc();
            assert(vstd::relations::total_ordering(leq)) by {
                assert(vstd::relations::reflexive(leq));
                assert(vstd::relations::antisymmetric(leq));
                assert(vstd::relations::transitive(leq));
                assert(vstd::relations::strongly_connected(leq));
            }
            dscores.lemma_sort_by_ensures(leq);
            assert(vstd::relations::sorted_by(out_scores, leq)) by {
                assert forall|a: int, b: int| 0 <= a < b < out_scores.len() implies #[trigger] leq(
                    out_scores[a],
                    out_scores[b],
                ) by {
                    assert(out@[a].score >= out@[b].score);
                }
            }
            assert(out_scores.to_multiset() == dscores.sort_by(leq).to_multiset());
            vstd::seq_lib::lemma_sorted_unique(out_scores, dscores.sort_by(leq), leq);
            assert(out_scores == spec_ranked_scores(sp, qtext, textsg, k1g, bg));
            assert(out@.len() == n) by {
                assert(out_scores.len() == out@.len());
            }
            assert forall|a: int| 0 <= a < out@.len() implies (#[trigger] out@[a]).score as int
                == spec_doc_score(sp, qtext, out@[a].item.text(), textsg, k1g, bg) by {
                assert(spec_scored(sp, qtext, textsg, k1g, bg, out@[a]));
            }
        }
        Ok(out)
    }
}

/// Every BM25 document score is non-negative: the inverse document
/// frequency is non-negative because no term is held by more items
/// than the corpus has, and every term contribution is a product of
/// non-negative factors.
pub proof fn lemma_doc_score_nonneg<S: Splitter>(
    sp: S,
    query: Seq<char>,
    doc: Seq<char>,
    texts: Seq<Seq<char>>,
    k1s: int,
    bs: int,
)
    ensures
        spec_doc_score(sp, query, doc, texts, k1s, bs) >= 0,
{
    lemma_score_nonneg(
        spec_dedup(sp.spec_split(query)),
        sp.spec_split(doc),
        texts,
        spec_total_tokens(sp, texts),
        k1s,
        bs,
    );
}

/// Ranking is idempotent: any two ranking passes over the same query,
/// corpus, tokenizer and constants yield identical score sequences,
/// because each pass's score column equals the one descending sort of
/// the corpus score sequence.
pub proof fn lemma_rank_idempotent<S: Splitter, U: Render>(
    sp: S,
    query: Seq<char>,
    texts: Seq<Seq<char>>,
    k1s: int,
    bs: int,
    r1: Seq<RankingResult<U>>,
    r2: Seq<RankingResult<U>>,
)
    requires
        r1.map_values(|p: RankingResult<U>| p.score as int) == spec_ranked_scores(
            sp,
            query,
            texts,
            k1s,
            bs,
        ),
        r2.map_values(|p: RankingResult<U>| p.score as int) == spec_ranked_scores(
            sp,
            query,
            texts,
            k1s,
            bs,
        ),
    ensures
        r1.len() == r2.len(),
        forall|i: int| 0 <= i < r1.len() ==> (#[trigger] r1[i]).score == r2[i].score,
{
    let f = |p: RankingResult<U>| p.score as int;
    assert(r1.map_values(f).len() == r1.len());
    assert(r2.map_values(f).len() == r2.len());
    assert forall|i: int| 0 <= i < r1.len() implies (#[trigger] r1[i]).score == r2[i].score by {
        assert(r1.map_values(f)[i] == r2.map_values(f)[i]);
    }
}

// ---------------------------------------------------------------------
// The retriever
// ---------------------------------------------------------------------

/// A retriever that ranks the whole store with BM25 and hands back the
/// best items.
pub struct BM25Retriever<S> {
    /// The ranking engine used for each retrieval.
    pub ranker: BM25Ranker<S>,
}

/// Builds a `BM25Retriever`; it starts from the default ranker, which
/// an explicit ranker may replace.
pub struct BM25RetrieverBuilder<S> {
    /// The ranker that the finished retriever will use.
    pub ranker: BM25Ranker<S>,
}

impl BM25Retriever<WhitespaceSplitter> {
    /// A retriever over the default ranker.
    pub fn new() -> (r: BM25Retriever<WhitespaceSplitter>)
        ensures
            r.ranker.b_scaled <= SCALE,
            r.ranker == (BM25Ranker {
                k1_scaled: DEFAULT_K1_SCALED,
                b_scaled: DEFAULT_B_SCALED,
                splitter: WhitespaceSplitter,
            }),
    {
        BM25Retriever { ranker: BM25Ranker::builder().build() }
    }

    /// Starts a builder from the default ranker.
    pub fn builder() -> (r: BM25RetrieverBuilder<WhitespaceSplitter>)
        ensures
            r.ranker.b_scaled <= SCALE,
            r.ranker == (BM25Ranker {
                k1_scaled: DEFAULT_K1_SCALED,
                b_scaled: DEFAULT_B_SCALED,
                splitter: WhitespaceSplitter,
            }),
    {
        BM25RetrieverBuilder::new()
    }
}

impl BM25RetrieverBuilder<WhitespaceSplitter> {
    /// Starts from the default ranker.
    pub fn new() -> (r: BM25RetrieverBuilder<WhitespaceSplitter>)
        ensures
            r.ranker.b_scaled <= SCALE,
            r.ranker == (BM25Ranker {
                k1_scaled: DEFAULT_K1_SCALED,
                b_scaled: DEFAULT_B_SCALED,
                splitter: WhitespaceSplitter,
            }),
    {
        BM25RetrieverBuilder { ranker: BM25Ranker::builder().build() }
    }
}

impl<S: Splitter> BM25RetrieverBuilder<S> {
    /// Replaces the ranker.
    pub fn ranker<S2: Splitter>(self, ranker: BM25Ranker<S2>) -> (r: BM25RetrieverBuilder<S2>)
        ensures
            r.ranker == ranker,
    {
        BM25RetrieverBuilder { ranker }
    }

    /// Finishes the retriever.
    pub fn build(self) -> (r: BM25Retriever<S>)
        ensures
            r.ranker == self.ranker,
    {
        BM25Retriever { ranker: self.ranker }
    }
}

/// What a BM25 retrieval promises: the returned items are the first
/// `max_num_results` items of a full ranking pass over the store.
pub open spec fn bm25_retrieve_ok<S: Splitter, U: Render>(
    ranker: BM25Ranker<S>,
    qtext: Seq<char>,
    data: Seq<U>,
    max_num_results: int,
    items: Seq<U>,
) -> bool {
    exists|res: Seq<RankingResult<U>>|
        #![trigger res.len()]
        {
            let texts = data.map_values(|u: U| u.text());
            let k = if max_num_results < res.len() {
                max_num_results
            } else {
                res.len() as int
            };
            &&& res.len() == data.len()
            &&& res.map_values(|p: RankingResult<U>| p.score as int) == spec_ranked_scores(
                ranker.splitter,
                qtext,
                texts,
                ranker.k1_scaled as int,
                ranker.b_scaled as int,
            )
            &&& forall|i: int|
                0 <= i < res.len() ==> (#[trigger] res[i]).score as int == spec_doc_score(
                    ranker.splitter,
                    qtext,
                    res[i].item.text(),
                    texts,
                    ranker.k1_scaled as int,
                    ranker.b_scaled as int,
                )
            &&& res.map_values(|p: RankingResult<U>| p.item).to_multiset() == data.to_multiset()
            &&& forall|i: int, j: int|
                0 <= i <= j < res.len() ==> (#[trigger] res[i]).score >= (#[trigger] res[j]).score
            &&& items == res.take(k).map_values(|p: RankingResult<U>| p.item)
        }
}

impl<S: Splitter, T: Render, U: Render> Retriever<T, U> for BM25Retriever<S> {
    open spec fn retrieve_pre(&self, query: T, data: Seq<U>) -> bool {
        &&& self.ranker.b_scaled <= SCALE
        &&& query.wf()
        &&& forall|i: int| 0 <= i < data.len() ==> (#[trigger] data[i]).wf()
    }

    open spec fn retrieve_post(
        &self,
        query: T,
        data: Seq<U>,
        max_num_results: int,
        r: Result<Vec<U>, RankError>,
    ) -> bool {
        &&& (r is Err <==> data.len() == 0)
        &&& (r matches Ok(items) ==> bm25_retrieve_ok(
            self.ranker,
            query.text(),
            data,
            max_num_results,
            items@,
        ))
    }

    fn retrieve(&self, query: T, store: Store<U>, max_num_results: usize) -> (r: Result<
        Vec<U>,
        RankError,
    >) {
        let ghost data = store.data@;
        let ranked = match self.ranker.rank(&query, store.data) {
            Ok(ranked) => ranked,
            Err(e) => {
                return Err(e);
            },
        };
        let ghost res0 = ranked@;
        let ghost fitem = |p: RankingResult<U>| p.item;
        let mut rest = ranked;
        let mut results: Vec<U> = Vec::new();
        while results.len() < max_num_results && rest.len() > 0
            invariant
                fitem == (|p: RankingResult<U>| p.item),
                res0.len() >= results@.len() + rest@.len(),
                rest@ == res0.skip(res0.len() - rest@.len()),
                results@.len() + rest@.len() == res0.len(),
                results@ =~= res0.take(results@.len() as int).map_values(fitem),
                results@.len() <= max_num_results,
            decreases rest@.len(),
        {
            let ghost done = results@.len() as int;
            let p = rest.remove(0);
            proof {
                assert(res0.skip(done)[0] == res0[done]);
                assert(res0.skip(done).remove(0) =~= res0.skip(done + 1));
            }
            results.push(p.item);
            proof {
                assert(results@ =~= res0.take(done + 1).map_values(fitem));
            }
        }
        proof {
            let k = if (max_num_results as int) < res0.len() {
                max_num_results as int
            } else {
                res0.len() as int
            };
            assert(results@.len() == k);
            assert(results@ =~= res0.take(k).map_values(fitem));
            assert(bm25_retrieve_ok(
                self.ranker,
                query.text(),
                data,
                max_num_results as int,
                results@,
            )) by {
                assert(res0.map_values(|p: RankingResult<U>| p.score as int) == spec_ranked_scores(
                    self.ranker.splitter,
                    query.text(),
                    data.map_values(|u: U| u.text()),
                    self.ranker.k1_scaled as int,
                    self.ranker.b_scaled as int,
                ));
            }
        }
        Ok(results)
    }
}

} // verus!
