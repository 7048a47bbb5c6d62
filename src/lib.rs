//! A verified evaluator for batches of signed documents.
//!
//! Given a batch of documents, a directory of signer keys and a newline-separated
//! set of conditions over the documents' contents, the evaluator counts the
//! documents whose signature is accepted, decides whether every condition holds,
//! and renders the outcome as a canonical byte string to be committed.
//!
//! - [`document`]: the document model and the key directory
//! - [`condition`]: the condition language, its grammar stated over bytes
//! - [`parse`]: the parser, proved against that grammar
//! - [`evaluate`]: path resolution and comparison against literals
//! - [`signature`]: signature acceptance, counting, and key selection
//! - [`canonical`]: the canonical rendering of payload values
//! - [`commitment`]: the public values, their encoding, and the entry points
//! - [`laws`]: properties that relate these functions

pub mod canonical;
pub mod commitment;
pub mod condition;
pub mod document;
pub mod evaluate;
pub mod laws;
pub mod parse;
pub mod signature;
