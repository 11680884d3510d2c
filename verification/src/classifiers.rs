//! The earlier, single-struct mention classifier shape: a model, a
//! credential, a query and a mention kind.  The composed classifiers
//! in `mention_classifiers` supersede it; the shape is kept for
//! callers that still hold classifications in this form.

use vstd::prelude::*;

use crate::llm::ChatModel;

verus! {

/// How many classes a classification distinguishes.
#[derive(Clone, Copy, PartialEq, Eq, Structural, Debug)]
pub enum ClassificationType {
    /// Two classes.
    Binary,
    /// More than two classes.
    MultiClass,
}

/// Which mention a classifier looks for.
#[derive(Clone, Copy, PartialEq, Eq, Structural, Debug)]
pub enum MentionKind {
    /// An author mention.
    Author,
    /// A date mention.
    Since,
}

/// The verdict of a mention classifier, with the extracted text.
pub struct MentionResult {
    /// Whether the mention was recognized.
    pub classification: bool,
    /// The extracted text, when the mention was recognized.
    pub content: Option<String>,
}

/// A mention classifier bound to one query.
pub struct MentionClassifier {
    /// Which completion model answers.
    pub model: ChatModel,
    /// The bearer credential for the service.
    pub api_key: String,
    /// The query under classification.
    pub query: String,
    /// Which mention is looked for.
    pub kind: MentionKind,
}

impl MentionClassifier {
    /// Binds a classifier to one query.
    pub fn new(model: ChatModel, api_key: String, query: String, kind: MentionKind) -> (r:
        MentionClassifier)
        ensures
            r.model.api_key@ == model.api_key@,
            r.model.model_key == model.model_key,
            r.api_key@ == api_key@,
            r.query@ == query@,
            r.kind == kind,
    {
        MentionClassifier { model, api_key, query, kind }
    }
}

} // verus!
