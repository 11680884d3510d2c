//! The two query classifiers: does the query express an author
//! filter, and does it express a date filter?  Each builds its
//! request from a classifier context; the caller performs the network
//! call and hands the tool-call arguments back for the verified
//! decision.

use vstd::prelude::*;
use vstd::string::StringExecFns;

use crate::classifier::{spec_system_prompt, BinaryClassificationResult, BinaryClassifier,
    LLMBinaryClassifierContext, ToolArgs};
use crate::dates::{spec_parse_ymd, parse_ymd, Timestamp};
use crate::git::{spec_opt_text, Author};
use crate::llm::{ChatModel, Property};
use crate::text::{chars_to_string, spec_join, to_chars};

verus! {

/// The author-list entries of the prompt: one `- name` line for each
/// author whose name is known.
pub open spec fn spec_author_list_items(authors: Seq<Author>) -> Seq<Seq<char>>
    decreases authors.len(),
{
    if authors.len() == 0 {
        Seq::empty()
    } else {
        let rest = spec_author_list_items(authors.drop_last());
        match authors.last().name {
            Some(n) => rest.push(seq!['-', ' '] + n@),
            None => rest,
        }
    }
}

/// The additional prompt material of the author classifier: the
/// complete author list and the exact-match note.
pub open spec fn spec_author_additional(authors: Seq<Author>) -> Seq<char> {
    "## Complete Author List\n"@ + spec_join(spec_author_list_items(authors), seq!['\n'])
        + "\n\n*The author name must be an exact match to the author's name in the list above.*"@
}

/// Decides whether the query filters by author, and extracts the
/// author.
pub struct AuthorMentionBinaryClassifier {
    /// The known authors; an extracted name counts only when it
    /// matches one of them.
    pub existing_authors: Vec<Author>,
    /// The classifier context.
    pub raw_classifier: LLMBinaryClassifierContext,
}

impl AuthorMentionBinaryClassifier {
    /// Composes the author classifier over the known authors.
    pub fn new(model: ChatModel, existing_authors: Vec<Author>) -> (r:
        AuthorMentionBinaryClassifier)
        ensures
            r.existing_authors == existing_authors,
            r.raw_classifier.instruction@
                == "Determine if the user's query is trying to filter by the author."@,
            r.raw_classifier.system_prompt@ == spec_system_prompt(
                spec_author_additional(existing_authors@),
            ),
            r.raw_classifier.result_properties@.len() == 1,
            r.raw_classifier.result_properties@[0].0@ == "author_name"@,
            r.raw_classifier.result_properties@[0].1.kind@ == "string"@,
            r.raw_classifier.result_properties@[0].1.description@
                == "The name of the author that the user is trying to filter by (if classification == true)"@,
            r.raw_classifier.model.api_key@ == model.api_key@,
            r.raw_classifier.model.model_key == model.model_key,
    {
        let instruction = String::from_str(
            "Determine if the user's query is trying to filter by the author.",
        );
        let result_property = (
            String::from_str("author_name"),
            Property {
                kind: String::from_str("string"),
                description: String::from_str(
                    "The name of the author that the user is trying to filter by (if classification == true)",
                ),
            },
        );
        let mut items: Vec<Vec<char>> = Vec::new();
        let mut i: usize = 0;
        while i < existing_authors.len()
            invariant
                i <= existing_authors@.len(),
                items.deep_view() =~~= spec_author_list_items(existing_authors@.take(i as int)),
            decreases existing_authors@.len() - i,
        {
            proof {
                let ag = existing_authors@;
                assert(ag.take(i + 1).drop_last() =~= ag.take(i as int));
                assert(ag.take(i + 1).last() == ag[i as int]);
            }
            match &existing_authors[i].name {
                Some(n) => {
                    let mut item: Vec<char> = vec!['-', ' '];
                    let nc = to_chars(n.as_str());
                    crate::text::extend_chars(&mut item, &nc);
                    proof {
                        assert(item@ =~= seq!['-', ' '] + n@);
                    }
                    let ghost old_dv = items.deep_view();
                    items.push(item);
                    proof {
                        assert(items.deep_view() =~~= old_dv.push(
                            seq!['-', ' '] + n@,
                        ));
                    }
                },
                None => (),
            }
            i += 1;
        }
        proof {
            assert(existing_authors@.take(existing_authors@.len() as int) =~= existing_authors@);
        }
        let nl: Vec<char> = vec!['\n'];
        proof {
            assert(nl@ =~= seq!['\n']);
        }
        let joined = crate::text::join(&items, &nl);
        let joined_text = chars_to_string(&joined);
        let mut additional = String::from_str("## Complete Author List\n");
        additional.append(joined_text.as_str());
        additional.append(
            "\n\n*The author name must be an exact match to the author's name in the list above.*",
        );
        proof {
            assert(additional@ =~= spec_author_additional(existing_authors@));
        }
        let raw_classifier = LLMBinaryClassifierContext::builder(model, instruction)
            .result_property(result_property)
            .additional_information(additional)
            .build();
        AuthorMentionBinaryClassifier { raw_classifier, existing_authors }
    }

    /// The classifier recognizes an author filter exactly when the
    /// verdict is positive, a name was extracted, and that name is
    /// one of the known authors.
    pub open spec fn spec_accepts(&self, args: ToolArgs) -> bool {
        &&& args.classification
        &&& args.author_name is Some
        &&& exists|i: int|
            0 <= i < self.existing_authors@.len() && (#[trigger] self.existing_authors@[i]).name_view()
                == spec_opt_text(args.author_name)
    }

}

impl BinaryClassifier<Author> for AuthorMentionBinaryClassifier {
    /// The verdict is positive exactly when the extracted name names
    /// a known author, and then carries that author.
    open spec fn classify_post(&self, args: ToolArgs, r: BinaryClassificationResult<Author>) -> bool {
        &&& r.classification == self.spec_accepts(args)
        &&& (r.classification ==> (r.content matches Some(a) && a.name_view() == spec_opt_text(
            args.author_name,
        ) && a.email_view() is None && a.username_view() is None))
        &&& (!r.classification ==> r.content is None)
    }

    /// The verified decision over the arguments that came back from
    /// the completion service.
    fn classify_args(&self, args: &ToolArgs) -> (r: BinaryClassificationResult<Author>) {
        if !args.classification {
            return BinaryClassificationResult { classification: false, content: None };
        }
        let name = match &args.author_name {
            Some(n) => n,
            None => {
                return BinaryClassificationResult { classification: false, content: None };
            },
        };
        let mut i: usize = 0;
        let mut found: bool = false;
        while i < self.existing_authors.len()
            invariant
                i <= self.existing_authors@.len(),
                args.author_name matches Some(an) && an@ == name@,
                found <==> exists|m: int|
                    0 <= m < i && (#[trigger] self.existing_authors@[m]).name_view() == Some(
                        name@,
                    ),
            decreases self.existing_authors@.len() - i,
        {
            if !found {
                match &self.existing_authors[i].name {
                    Some(n) => {
                        if n.eq(name) {
                            found = true;
                            proof {
                                assert(self.existing_authors@[i as int].name_view() == Some(
                                    name@,
                                ));
                            }
                        }
                    },
                    None => (),
                }
            }
            i += 1;
        }
        if found {
            BinaryClassificationResult {
                classification: true,
                content: Some(Author { name: Some(name.clone()), email: None, username: None }),
            }
        } else {
            BinaryClassificationResult { classification: false, content: None }
        }
    }
}

/// The date bound a `since` text yields: the first second of the
/// named day.
pub open spec fn spec_since_bound(text: Option<Seq<char>>) -> Option<int> {
    match text {
        Some(t) => match spec_parse_ymd(t) {
            Some((y, m, d)) => Some(Timestamp::spec_from_ymd_hms(y, m, d, 0, 0, 0)),
            None => None,
        },
        None => None,
    }
}

/// The date bound an `until` text yields: the last second of the
/// named day, so that the upper bound is inclusive.
pub open spec fn spec_until_bound(text: Option<Seq<char>>) -> Option<int> {
    match text {
        Some(t) => match spec_parse_ymd(t) {
            Some((y, m, d)) => Some(Timestamp::spec_from_ymd_hms(y, m, d, 23, 59, 59)),
            None => None,
        },
        None => None,
    }
}

/// Decides whether the query filters by date, and extracts the
/// inclusive range.
pub struct DateTimeMentionClassifier {
    /// The classifier context.
    pub raw_classifier: LLMBinaryClassifierContext,
}

impl DateTimeMentionClassifier {
    /// Composes the date classifier; `today` is the current date in
    /// `YYYY-MM-DD` form, which the prompt mentions.
    pub fn new(model: ChatModel, today: &str) -> (r: DateTimeMentionClassifier)
        ensures
            r.raw_classifier.instruction@
                == "Determine if the user's query is trying to filter by the date."@,
            r.raw_classifier.system_prompt@ == spec_system_prompt(
                "The date must be in the format YYYY-MM-DD.\n\nThe current datetime is: "@
                    + today@,
            ),
            r.raw_classifier.result_properties@.len() == 2,
            r.raw_classifier.result_properties@[0].0@ == "since"@,
            r.raw_classifier.result_properties@[0].1.kind@ == "string"@,
            r.raw_classifier.result_properties@[0].1.description@
                == "The YYYY-MM-DD since date that the user is trying to filter by"@,
            r.raw_classifier.result_properties@[1].0@ == "until"@,
            r.raw_classifier.result_properties@[1].1.kind@ == "string"@,
            r.raw_classifier.result_properties@[1].1.description@
                == "The YYYY-MM-DD until date that the user is trying to filter by"@,
            r.raw_classifier.model.api_key@ == model.api_key@,
            r.raw_classifier.model.model_key == model.model_key,
    {
        let instruction = String::from_str(
            "Determine if the user's query is trying to filter by the date.",
        );
        let before_date_property = (
            String::from_str("since"),
            Property {
                kind: String::from_str("string"),
                description: String::from_str(
                    "The YYYY-MM-DD since date that the user is trying to filter by",
                ),
            },
        );
        let after_date_property = (
            String::from_str("until"),
            Property {
                kind: String::from_str("string"),
                description: String::from_str(
                    "The YYYY-MM-DD until date that the user is trying to filter by",
                ),
            },
        );
        let mut additional = String::from_str(
            "The date must be in the format YYYY-MM-DD.\n\nThe current datetime is: ",
        );
        additional.append(today);
        let raw_classifier = LLMBinaryClassifierContext::builder(model, instruction)
            .result_property(before_date_property)
            .result_property(after_date_property)
            .additional_information(additional)
            .build();
        DateTimeMentionClassifier { raw_classifier }
    }

    /// The verified decision over the arguments that came back from
    /// the completion service: positive exactly when the verdict is
    /// positive and at least one bound text names a real date; the
    /// extracted range then runs from the first second of the since
    /// day to the last second of the until day.
    pub fn classify_args(&self, args: &ToolArgs) -> (r: BinaryClassificationResult<
        (Option<Timestamp>, Option<Timestamp>),
    >)
        ensures
            r.classification == (args.classification && (spec_since_bound(
                spec_opt_text(args.since),
            ) is Some || spec_until_bound(spec_opt_text(args.until)) is Some)),
            r.classification ==> (r.content matches Some((s, u)) && (match s {
                Some(ts) => Some(ts.secs as int) == spec_since_bound(spec_opt_text(args.since))
                    && ts.wf(),
                None => spec_since_bound(spec_opt_text(args.since)) is None,
            }) && (match u {
                Some(ts) => Some(ts.secs as int) == spec_until_bound(spec_opt_text(args.until))
                    && ts.wf(),
                None => spec_until_bound(spec_opt_text(args.until)) is None,
            })),
            !r.classification ==> r.content is None,
    {
        if !args.classification {
            return BinaryClassificationResult { classification: false, content: None };
        }
        let since = match &args.since {
            Some(t) => {
                let tc = to_chars(t.as_str());
                match parse_ymd(&tc) {
                    Some((y, m, d)) => Some(Timestamp::from_ymd(y, m, d)),
                    None => None,
                }
            },
            None => None,
        };
        let until = match &args.until {
            Some(t) => {
                let tc = to_chars(t.as_str());
                match parse_ymd(&tc) {
                    Some((y, m, d)) => Some(Timestamp::from_ymd_end(y, m, d)),
                    None => None,
                }
            },
            None => None,
        };
        if since.is_some() || until.is_some() {
            BinaryClassificationResult { classification: true, content: Some((since, until)) }
        } else {
            BinaryClassificationResult { classification: false, content: None }
        }
    }
}

} // verus!
