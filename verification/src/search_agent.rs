//! The search orchestrator's verified core: the search configuration,
//! the filter built from classifier verdicts, the dual-view ranking of
//! records, and result deduplication.  The caller performs the
//! fetches and the classifier network calls, then hands the values to
//! the functions here.

use vstd::prelude::*;

use crate::bm25::{bm25_retrieve_ok, BM25Ranker, BM25Retriever, DEFAULT_B_SCALED,
    DEFAULT_K1_SCALED};
use crate::classifier::BinaryClassificationResult;
use crate::dates::Timestamp;
use crate::git::{Author, Commit, CommitDisplayMode, FilterConfig};
use crate::github::Issue;
use crate::llm::ChatModel;
use crate::mention_classifiers::{AuthorMentionBinaryClassifier, DateTimeMentionClassifier};
use crate::rankers::{RankError, Render};
use crate::retrievers::Retriever;
use crate::splitters::{PuncSplitter, WhitespaceSplitter};
use crate::store::Store;

verus! {

/// One search invocation's settings.
pub struct SearchConfig {
    /// The free-text query.
    pub query: String,
    /// How many results each ranked list may hold.
    pub max_num_results: usize,
    /// Search the record history.
    pub include_commits: bool,
    /// Search the issue tracker too.
    pub include_issues: bool,
    /// Rank the code-patch view besides the message view.
    pub include_code_patches: bool,
    /// Skip the query classifiers.
    pub disable_classifications: bool,
    /// Fetch the whole history even on a large repository.
    pub search_all: bool,
}

/// Builds a `SearchConfig` with named defaults.
pub struct SearchConfigBuilder {
    /// The free-text query.
    pub query: String,
    /// How many results each ranked list may hold.
    pub max_num_results: usize,
    /// Search the record history.
    pub include_commits: bool,
    /// Search the issue tracker too.
    pub include_issues: bool,
    /// Rank the code-patch view besides the message view.
    pub include_code_patches: bool,
    /// Skip the query classifiers.
    pub disable_classifications: bool,
    /// Fetch the whole history even on a large repository.
    pub search_all: bool,
}

impl SearchConfigBuilder {
    /// Starts from the defaults: ten results, records only, with
    /// classification.
    pub fn new(query: String) -> (r: SearchConfigBuilder)
        ensures
            r.query@ == query@,
            r.max_num_results == 10usize,
            r.include_commits,
            !r.include_issues,
            !r.include_code_patches,
            !r.disable_classifications,
            !r.search_all,
    {
        SearchConfigBuilder {
            query,
            max_num_results: 10,
            include_commits: true,
            include_issues: false,
            include_code_patches: false,
            disable_classifications: false,
            search_all: false,
        }
    }

    /// Sets how many results each list may hold.
    pub fn max_num_results(self, max_num_results: usize) -> (r: SearchConfigBuilder)
        ensures
            r == (SearchConfigBuilder { max_num_results, ..self }),
    {
        SearchConfigBuilder { max_num_results, ..self }
    }

    /// Chooses whether the record history is searched.
    pub fn include_commits(self, include_commits: bool) -> (r: SearchConfigBuilder)
        ensures
            r == (SearchConfigBuilder { include_commits, ..self }),
    {
        SearchConfigBuilder { include_commits, ..self }
    }

    /// Chooses whether the issue tracker is searched too.
    pub fn include_issues(self, include_issues: bool) -> (r: SearchConfigBuilder)
        ensures
            r == (SearchConfigBuilder { include_issues, ..self }),
    {
        SearchConfigBuilder { include_issues, ..self }
    }

    /// Chooses whether the code-patch view is ranked besides the
    /// message view.
    pub fn include_code_patches(self, include_code_patches: bool) -> (r: SearchConfigBuilder)
        ensures
            r == (SearchConfigBuilder { include_code_patches, ..self }),
    {
        SearchConfigBuilder { include_code_patches, ..self }
    }

    /// Chooses whether the query classifiers are skipped.
    pub fn disable_classifications(self, disable_classifications: bool) -> (r:
        SearchConfigBuilder)
        ensures
            r == (SearchConfigBuilder { disable_classifications, ..self }),
    {
        SearchConfigBuilder { disable_classifications, ..self }
    }

    /// Chooses whether the whole history is fetched.
    pub fn search_all(self, search_all: bool) -> (r: SearchConfigBuilder)
        ensures
            r == (SearchConfigBuilder { search_all, ..self }),
    {
        SearchConfigBuilder { search_all, ..self }
    }

    /// Finishes the configuration.
    pub fn build(self) -> (r: SearchConfig)
        ensures
            r.query@ == self.query@,
            r.max_num_results == self.max_num_results,
            r.include_commits == self.include_commits,
            r.include_issues == self.include_issues,
            r.include_code_patches == self.include_code_patches,
            r.disable_classifications == self.disable_classifications,
            r.search_all == self.search_all,
    {
        SearchConfig {
            query: self.query,
            max_num_results: self.max_num_results,
            include_commits: self.include_commits,
            include_issues: self.include_issues,
            include_code_patches: self.include_code_patches,
            disable_classifications: self.disable_classifications,
            search_all: self.search_all,
        }
    }
}

/// The search orchestrator's fixed parts: the two clients and the two
/// query classifiers.
pub struct SearchAgent {
    /// The history client.
    pub git_client: crate::git::Client,
    /// The issue-tracker client.
    pub github_client: crate::github::Client,
    /// Decides whether the query filters by author.
    pub author_mention_classifier: AuthorMentionBinaryClassifier,
    /// Decides whether the query filters by date.
    pub datetime_mention_classifier: DateTimeMentionClassifier,
}

impl SearchAgent {
    /// Composes the orchestrator.  The caller supplies the known
    /// authors (from the history tool, one per record) and the current
    /// date in `YYYY-MM-DD` form.  The authors are deduplicated by
    /// name first, so the classifier prompt names each known author
    /// once; membership by name is unchanged.
    pub fn new(model: ChatModel, all_authors: Vec<Author>, today: &str) -> (r: SearchAgent)
        ensures
            r.author_mention_classifier.existing_authors@ == crate::git::spec_dedup_authors(
                all_authors@,
            ),
            r.author_mention_classifier.raw_classifier.system_prompt@
                == crate::classifier::spec_system_prompt(
                crate::mention_classifiers::spec_author_additional(
                    crate::git::spec_dedup_authors(all_authors@),
                ),
            ),
            r.datetime_mention_classifier.raw_classifier.system_prompt@
                == crate::classifier::spec_system_prompt(
                "The date must be in the format YYYY-MM-DD.\n\nThe current datetime is: "@
                    + today@,
            ),
    {
        let model2 = model.duplicate();
        let distinct_authors = crate::git::dedupe_authors(all_authors);
        let author_mention_classifier = AuthorMentionBinaryClassifier::new(
            model,
            distinct_authors,
        );
        let datetime_mention_classifier = DateTimeMentionClassifier::new(model2, today);
        SearchAgent {
            git_client: crate::git::Client::new(),
            github_client: crate::github::Client::new(),
            author_mention_classifier,
            datetime_mention_classifier,
        }
    }
}

/// Builds the fetch filter from the two classifier verdicts: each
/// positive, value-carrying verdict contributes its filter, a
/// negative or empty verdict leaves that filter absent.
pub fn build_filter_config(
    author_result: &BinaryClassificationResult<Author>,
    date_result: &BinaryClassificationResult<(Option<Timestamp>, Option<Timestamp>)>,
    search_all: bool,
) -> (r: FilterConfig)
    ensures
        r.git_log_get_all == search_all,
        (author_result.classification && author_result.content is Some) ==> (r.author
            matches Some(ra) && author_result.content matches Some(a) && ra.name_view()
            == a.name_view() && ra.email_view() == a.email_view() && ra.username_view()
            == a.username_view()),
        !(author_result.classification && author_result.content is Some) ==> r.author is None,
        (date_result.classification && date_result.content is Some) ==> r.date_range
            == date_result.content,
        !(date_result.classification && date_result.content is Some) ==> r.date_range is None,
{
    let author = if author_result.classification {
        match &author_result.content {
            Some(a) => Some(a.duplicate()),
            None => None,
        }
    } else {
        None
    };
    let date_range = if date_result.classification {
        match &date_result.content {
            Some(dr) => Some(*dr),
            None => None,
        }
    } else {
        None
    };
    FilterConfig { author, date_range, git_log_get_all: search_all }
}

/// There is a record with this identifier among `s`.
pub open spec fn spec_has_sha(s: Seq<Commit>, sha: Seq<char>) -> bool {
    exists|i: int| 0 <= i < s.len() && (#[trigger] s[i]).sha@ == sha
}

/// `s` with every later repetition of an identifier removed: each
/// record keeps its first occurrence.
pub open spec fn spec_dedup_commits(s: Seq<Commit>) -> Seq<Commit>
    decreases s.len(),
{
    if s.len() == 0 {
        Seq::empty()
    } else {
        let rest = spec_dedup_commits(s.drop_last());
        if spec_has_sha(rest, s.last().sha@) {
            rest
        } else {
            rest.push(s.last())
        }
    }
}

/// Decides whether `out` already holds a record with this identifier.
fn has_sha(out: &Vec<Commit>, sha: &String) -> (r: bool)
    ensures
        r == spec_has_sha(out@, sha@),
{
    let mut i: usize = 0;
    while i < out.len()
        invariant
            i <= out@.len(),
            forall|m: int| 0 <= m < i ==> (#[trigger] out@[m]).sha@ != sha@,
        decreases out@.len() - i,
    {
        if out[i].sha.eq(sha) {
            return true;
        }
        i += 1;
    }
    false
}

/// Deduplicates ranked records by identifier, preserving first-seen
/// order: a record that two lists both ranked keeps its place in the
/// first list it appeared in.
pub fn dedupe_commits(commits: Vec<Commit>) -> (r: Vec<Commit>)
    ensures
        r@ == spec_dedup_commits(commits@),
{
    let ghost inputg = commits@;
    let mut rest = commits;
    let total = rest.len();
    let mut out: Vec<Commit> = Vec::new();
    let mut i: usize = 0;
    while rest.len() > 0
        invariant
            inputg.len() == total,
            i + rest@.len() == inputg.len(),
            rest@ == inputg.skip(i as int),
            out@ == spec_dedup_commits(inputg.take(i as int)),
        decreases rest@.len(),
    {
        proof {
            assert(inputg.take(i + 1).drop_last() =~= inputg.take(i as int));
            assert(inputg.take(i + 1).last() == inputg[i as int]);
            assert(inputg.skip(i as int)[0] == inputg[i as int]);
            assert(inputg.skip(i as int).remove(0) =~= inputg.skip(i + 1));
        }
        let c = rest.remove(0);
        if !has_sha(&out, &c.sha) {
            out.push(c);
        }
        i += 1;
    }
    proof {
        assert(inputg.take(inputg.len() as int) =~= inputg);
    }
    out
}

/// The ranker configuration of the primary, message-view pass.
pub open spec fn spec_primary_ranker() -> BM25Ranker<WhitespaceSplitter> {
    BM25Ranker {
        k1_scaled: DEFAULT_K1_SCALED,
        b_scaled: DEFAULT_B_SCALED,
        splitter: WhitespaceSplitter,
    }
}

/// The ranker configuration of the secondary, code-patch pass.
pub open spec fn spec_patch_ranker() -> BM25Ranker<PuncSplitter> {
    BM25Ranker { k1_scaled: DEFAULT_K1_SCALED, b_scaled: DEFAULT_B_SCALED, splitter: PuncSplitter }
}

/// `code` is `all` re-rendered under the added-lines view.
pub open spec fn spec_code_view(all: Seq<Commit>, code: Seq<Commit>) -> bool {
    &&& code.len() == all.len()
    &&& forall|i: int|
        0 <= i < all.len() ==> {
            &&& (#[trigger] code[i]).display_mode == CommitDisplayMode::PatchSetAdd
            &&& code[i].sha@ == all[i].sha@
            &&& code[i].title@ == all[i].title@
            &&& code[i].body@ == all[i].body@
            &&& code[i].date == all[i].date
            &&& code[i].author.name_view() == all[i].author.name_view()
            &&& code[i].patch_set.model() == all[i].patch_set.model()
            &&& code[i].patch_set.raw@ == all[i].patch_set.raw@
        }
}

/// Ranks the fetched records against the query: a primary pass over
/// the message view, an optional second pass over the added-lines
/// view with punctuation-aware tokenization appended after it (a
/// two-pass union, never merged by score), then deduplication by
/// identifier with primary hits ranked ahead.
pub fn rank_commit_results(
    query: &String,
    all_commits: Vec<Commit>,
    max_num_results: usize,
    include_code_patches: bool,
) -> (r: Result<Vec<Commit>, RankError>)
    requires
        forall|i: int| 0 <= i < all_commits@.len() ==> (#[trigger] all_commits@[i]).wf(),
    ensures
        r is Err <==> all_commits@.len() == 0,
        r matches Ok(out) ==> exists|prim: Seq<Commit>, sec: Seq<Commit>|
            {
                &&& #[trigger] spec_dedup_commits(prim + sec) == out@
                &&& bm25_retrieve_ok(
                    spec_primary_ranker(),
                    query@,
                    all_commits@,
                    max_num_results as int,
                    prim,
                )
                &&& (include_code_patches ==> exists|code: Seq<Commit>|
                    spec_code_view(all_commits@, code) && #[trigger] bm25_retrieve_ok(
                        spec_patch_ranker(),
                        query@,
                        code,
                        max_num_results as int,
                        sec,
                    ))
                &&& (!include_code_patches ==> sec == Seq::<Commit>::empty())
            },
{
    let ghost allg = all_commits@;
    // the added-lines view is prepared first, while the records are
    // still owned here
    let mut code_commits: Vec<Commit> = Vec::new();
    if include_code_patches {
        let mut i: usize = 0;
        while i < all_commits.len()
            invariant
                include_code_patches,
                i <= allg.len(),
                all_commits@ == allg,
                forall|m: int| 0 <= m < allg.len() ==> (#[trigger] allg[m]).wf(),
                code_commits@.len() == i,
                forall|m: int|
                    0 <= m < i ==> {
                        &&& (#[trigger] code_commits@[m]).display_mode
                            == CommitDisplayMode::PatchSetAdd
                        &&& code_commits@[m].sha@ == allg[m].sha@
                        &&& code_commits@[m].title@ == allg[m].title@
                        &&& code_commits@[m].body@ == allg[m].body@
                        &&& code_commits@[m].date == allg[m].date
                        &&& code_commits@[m].author.name_view() == allg[m].author.name_view()
                        &&& code_commits@[m].patch_set.model() == allg[m].patch_set.model()
                        &&& code_commits@[m].patch_set.raw@ == allg[m].patch_set.raw@
                        &&& code_commits@[m].wf()
                    },
            decreases allg.len() - i,
        {
            code_commits.push(all_commits[i].with_display_mode(CommitDisplayMode::PatchSetAdd));
            i += 1;
        }
    }
    let retriever = BM25Retriever::new();
    let store = Store::from(all_commits);
    let mut results = match retriever.retrieve(query.clone(), store, max_num_results) {
        Ok(rs) => rs,
        Err(e) => {
            return Err(e);
        },
    };
    let ghost primg = results@;
    let ghost secg = Seq::<Commit>::empty();
    if include_code_patches {
        let code_ranker = BM25Ranker::builder().splitter(PuncSplitter).build();
        let code_retriever = BM25Retriever::builder().ranker(code_ranker).build();
        let ghost codeg = code_commits@;
        let code_store = Store::from(code_commits);
        let mut secondary = match code_retriever.retrieve(
            query.clone(),
            code_store,
            max_num_results,
        ) {
            Ok(rs) => rs,
            Err(e) => {
                return Err(e);
            },
        };
        let ghost secg2 = secondary@;
        results.append(&mut secondary);
        proof {
            assert(results@ =~= primg + secg2);
        }
        let deduped = dedupe_commits(results);
        proof {
            assert(bm25_retrieve_ok(
                spec_primary_ranker(),
                query@,
                allg,
                max_num_results as int,
                primg,
            ));
            assert(spec_code_view(allg, codeg));
            assert(bm25_retrieve_ok(
                spec_patch_ranker(),
                query@,
                codeg,
                max_num_results as int,
                secg2,
            ));
        }
        Ok(deduped)
    } else {
        let deduped = dedupe_commits(results);
        proof {
            assert(primg + secg =~= primg);
            assert(bm25_retrieve_ok(
                spec_primary_ranker(),
                query@,
                allg,
                max_num_results as int,
                primg,
            ));
        }
        Ok(deduped)
    }
}

/// Ranks the fetched issues against the query: one pass over the
/// issue rendering with the default tokenizer.
pub fn rank_issue_results(query: &String, issues: Vec<Issue>, max_num_results: usize) -> (r:
    Result<Vec<Issue>, RankError>)
    requires
        forall|i: int| 0 <= i < issues@.len() ==> (#[trigger] issues@[i]).wf(),
    ensures
        r is Err <==> issues@.len() == 0,
        r matches Ok(out) ==> bm25_retrieve_ok(
            spec_primary_ranker(),
            query@,
            issues@,
            max_num_results as int,
            out@,
        ),
{
    let retriever = BM25Retriever::new();
    let store = Store::from(issues);
    retriever.retrieve(query.clone(), store, max_num_results)
}

} // verus!

