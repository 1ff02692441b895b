//! State-computation core of a blockchain node.
//!
//! Given an immutable, content-addressed chain of tipsets, this library
//! derives the post-execution world state and message receipts for any
//! tipset, caches that derivation so repeated requests never redo it,
//! resolves whether and where a specific message was executed, implements a
//! finality-aware wait-for-message protocol that handles chain
//! reorganizations, and validates recorded chains by sequential replay.
//!
//! The chain store and the execution engine are external collaborators; the
//! library works against a [`chain::ChainView`], a content-addressed view of
//! their data. Runtime drivers feed head-change events and engine outcomes
//! in; every decision taken on them is verified here.

pub mod calls;

pub mod chain;

pub mod db;

pub mod lookup;

pub mod manager;

pub mod resolver;

pub mod types;

pub mod validate;

pub mod wait;
