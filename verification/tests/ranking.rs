//! Ranking engine behaviour: tokenizers, scores, ordering, top-k.

use gitm::bm25::{BM25Ranker, BM25Retriever};
use gitm::rankers::RankError;
use gitm::retrievers::Retriever;
use gitm::splitters::{CharSplitter, PuncSplitter, Splitter, WhitespaceSplitter};
use gitm::store::Store;

#[test]
fn whitespace_splitter_splits_on_runs() {
    let toks = WhitespaceSplitter.split("a  b\tc\n d");
    assert_eq!(toks, vec!["a", "b", "c", "d"]);
}

#[test]
fn whitespace_splitter_empty_text() {
    let toks = WhitespaceSplitter.split("   ");
    assert_eq!(toks.len(), 0);
}

#[test]
fn char_splitter_one_term_per_scalar() {
    let toks = CharSplitter.split("ab c");
    assert_eq!(toks, vec!["a", "b", " ", "c"]);
}

#[test]
fn punc_splitter_splits_identifiers() {
    let toks = PuncSplitter.split("foo.bar(baz_qux) + 1");
    assert_eq!(toks, vec!["foo", "bar", "baz", "qux", "1"]);
}

#[test]
fn rank_empty_corpus_is_the_only_error() {
    let ranker = BM25Ranker::new();
    let corpus: Vec<String> = Vec::new();
    let r = ranker.rank(&String::from("q"), corpus);
    assert!(matches!(r, Err(RankError::EmptyCorpus)));
    assert_eq!(
        RankError::EmptyCorpus.message(),
        "cannot rank an empty corpus"
    );
}

#[test]
fn rank_exact_scores_for_small_corpus() {
    // corpus: ["a b", "b"], query "b", defaults k1 = 1.2, b = 0.75.
    // idf = ln((2*2+2)/(2*2+1)) = ln(6/5); the scaled logarithm is
    // 138629 millionths.  The shorter document scores higher:
    // 160517 vs 121993 millionths.
    let ranker = BM25Ranker::new();
    let corpus = vec![String::from("a b"), String::from("b")];
    let ranked = ranker.rank(&String::from("b"), corpus).unwrap();
    assert_eq!(ranked.len(), 2);
    assert_eq!(ranked[0].item, "b");
    assert_eq!(ranked[0].score, 160517);
    assert_eq!(ranked[1].item, "a b");
    assert_eq!(ranked[1].score, 121993);
}

#[test]
fn rank_scores_never_negative_and_sorted() {
    let ranker = BM25Ranker::new();
    let corpus = vec![
        String::from("alpha beta gamma"),
        String::from("beta"),
        String::from("delta epsilon"),
        String::from(""),
    ];
    let ranked = ranker
        .rank(&String::from("beta delta beta"), corpus)
        .unwrap();
    assert_eq!(ranked.len(), 4);
    for w in ranked.windows(2) {
        assert!(w[0].score >= w[1].score);
    }
    // scores are unsigned fixed-point values: non-negative by
    // construction
    for r in &ranked {
        assert!(r.score == r.score.max(0));
    }
}

#[test]
fn rank_same_inputs_twice_same_scores() {
    let corpus = vec![
        String::from("the quick brown fox"),
        String::from("jumps over the lazy dog"),
        String::from("the the the"),
    ];
    let ranker = BM25Ranker::new();
    let r1 = ranker.rank(&String::from("the fox"), corpus.clone()).unwrap();
    let r2 = ranker.rank(&String::from("the fox"), corpus).unwrap();
    assert_eq!(r1.len(), r2.len());
    for i in 0..r1.len() {
        assert_eq!(r1[i].score, r2[i].score);
    }
}

#[test]
fn rank_duplicate_query_terms_count_once() {
    let corpus = vec![String::from("x y"), String::from("y")];
    let ranker = BM25Ranker::new();
    let once = ranker.rank(&String::from("y"), corpus.clone()).unwrap();
    let twice = ranker.rank(&String::from("y y"), corpus).unwrap();
    for i in 0..once.len() {
        assert_eq!(once[i].score, twice[i].score);
    }
}

#[test]
fn end_to_end_example_corpus() {
    let corpus = vec![
        String::from("Germany was founded in 1871"),
        String::from("Apples fall downwards"),
        String::from("What happened to Alan Turing?"),
        String::from("Google is searching for answers"),
        String::from("When was the first computer invented?"),
    ];
    let ranker = BM25Ranker::new();
    let ranked = ranker
        .rank(&String::from("some search about germany"), corpus.clone())
        .unwrap();
    assert_eq!(ranked.len(), 5);
    // no query term is a token of any document (token matching is
    // case-sensitive and exact), so every score is zero and ties keep
    // corpus order: the first document leads
    assert_eq!(ranked[0].item, "Germany was founded in 1871");
    for r in &ranked {
        assert_eq!(r.score, 0);
    }
    let retriever = BM25Retriever::new();
    let top = retriever
        .retrieve(String::from("some search about germany"), Store::from(corpus), 1)
        .unwrap();
    assert_eq!(top, vec![String::from("Germany was founded in 1871")]);
}

#[test]
fn retrieve_caps_at_max_num_results() {
    let corpus = vec![
        String::from("one two"),
        String::from("two three"),
        String::from("three four"),
    ];
    let retriever = BM25Retriever::new();
    let top = retriever
        .retrieve(String::from("two"), Store::from(corpus), 2)
        .unwrap();
    assert_eq!(top.len(), 2);
}

#[test]
fn retrieve_with_large_max_returns_all() {
    let corpus = vec![String::from("a"), String::from("b")];
    let retriever = BM25Retriever::new();
    let top = retriever
        .retrieve(String::from("a"), Store::from(corpus), 10)
        .unwrap();
    assert_eq!(top.len(), 2);
    assert_eq!(top[0], "a");
}

#[test]
fn builder_sets_constants_and_splitter() {
    let ranker = BM25Ranker::builder().k1(1_500_000).b(500_000).splitter(PuncSplitter).build();
    assert_eq!(ranker.k1_scaled, 1_500_000);
    assert_eq!(ranker.b_scaled, 500_000);
    let corpus = vec![String::from("alpha.beta"), String::from("gamma")];
    let ranked = ranker.rank(&String::from("beta"), corpus).unwrap();
    // the punctuation-aware tokenizer finds "beta" inside
    // "alpha.beta", so that document leads with a positive score
    assert_eq!(ranked[0].item, "alpha.beta");
    assert!(ranked[0].score > 0);
}

#[test]
fn store_get_and_len() {
    let store = Store::from(vec![String::from("x"), String::from("y")]);
    assert_eq!(store.len(), 2);
    assert_eq!(store.get(0), Some(&String::from("x")));
    assert_eq!(store.get(1), Some(&String::from("y")));
    assert_eq!(store.get(2), None);
}

#[test]
fn empty_query_scores_everything_zero_in_corpus_order() {
    let corpus = vec![String::from("c"), String::from("a"), String::from("b")];
    let ranker = BM25Ranker::new();
    let ranked = ranker.rank(&String::from(""), corpus.clone()).unwrap();
    assert_eq!(ranked.len(), 3);
    for (i, r) in ranked.iter().enumerate() {
        assert_eq!(r.score, 0);
        assert_eq!(r.item, corpus[i]);
    }
}

#[test]
fn char_splitter_ranker_matches_single_scalars() {
    let ranker = BM25Ranker::builder().splitter(CharSplitter).build();
    let corpus = vec![String::from("xyz"), String::from("abc")];
    let ranked = ranker.rank(&String::from("a"), corpus).unwrap();
    assert_eq!(ranked[0].item, "abc");
    assert!(ranked[0].score > 0);
    assert_eq!(ranked[1].score, 0);
}
