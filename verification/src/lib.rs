//! A verified retrieval-and-ranking library for version-control history.
//!
//! The library ranks displayable items against a free-text query with a
//! BM25-style scoring formula over fixed-point arithmetic, decodes the
//! multiplexed text stream of a history query into structured records,
//! evaluates author and date filters, and composes the pieces into a
//! search pipeline.  All scoring, parsing and filtering logic is verified;
//! calls into outside crates stand behind a small set of trusted wrappers.

pub mod bm25;
pub mod classifier;
pub mod classifiers;
pub mod dates;
pub mod fixed;
pub mod fmt;
pub mod git;
pub mod github;
pub mod llm;
pub mod mention_classifiers;
pub mod patch;
pub mod prompts;
pub mod rankers;
pub mod retrievers;
pub mod search_agent;
pub mod splitters;
pub mod store;
pub mod text;
