//! A type-safe event bus: topic routing, subscription registry, dispatch and retry decisions.
pub mod assoc;
pub mod bus;
pub mod config;
pub mod demo;
pub mod envelope;
pub mod dispatcher;
pub mod error;
pub mod event;
pub mod foreign;
pub mod json;
pub mod laws;
pub mod metadata;
pub mod persistence;
pub mod registry;
pub mod remote;
pub mod subscription;
pub mod topic_trie;
