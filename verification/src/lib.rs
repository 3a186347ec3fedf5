//! Search for a title across many web sources, each described by a rule.
//!
//! A rule says how to ask a source and where its results sit in the page that
//! comes back. The library builds the request for a keyword (`search`), reads
//! the page (`engine`, on the document tree of `dom`), turns what it read into
//! result records (`extract`, with `xpath` and `links`), and keeps the protocol
//! of a search over many sources (`orchestrator`). Around that it decides what
//! a request asks for (`requests`), which rules a process works with (`rules`)
//! and which of them an update fetches (`updater`), and says what a request to a
//! source looks like and what its answer amounts to (`http_client`).
//!
//! The library does no input or output. Pages are fetched by the caller and
//! handed in as text; events are handed out as values.

pub mod dom;
pub mod engine;
pub mod extract;
pub mod http_client;
pub mod links;
pub mod orchestrator;
pub mod requests;
pub mod rules;
pub mod search;
pub mod text;
pub mod types;
pub mod updater;
pub mod xpath;
