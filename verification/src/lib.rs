//! A lightweight URL security scanner's core: a pure target
//! normalizer, a deterministic analysis engine over fetched responses,
//! a lifecycle record store, a bounded admission queue and a
//! concurrency-bounded dispatcher, each with a verified contract.
//!
//! Network fetching, persistence and HTTP routing live outside this
//! crate; its boundary is the in-process operation contracts.

pub mod analysis;
pub mod auth;
pub mod engine;
pub mod errors;
pub mod normalize;
pub mod queue;
pub mod requests;
pub mod store;
pub mod target;
pub mod text;
pub mod webhook;
