//! The verified core of a terminal client for a video platform: the
//! scraping protocol that turns a search-results page into typed video and
//! channel records, and the local persistence that makes repeated scraping
//! cheap — a content-addressed TTL cache, a bounded deduplicated watch
//! history, and a flat subscription store.
//!
//! Network, file system and process work stay outside; the functions here
//! take plain values and state what they return. The few calls into
//! outside crates (hashing, percent-encoding, entity decoding, JSON
//! parsing) stand behind small trusted wrappers whose contracts name their
//! results.

#![allow(unused_imports)]

pub mod cache;
pub mod config;
pub mod decode;
pub mod encode;
pub mod error;
pub mod extract;
pub mod history;
pub mod json;
pub mod paths;
pub mod player;
pub mod selector;
pub mod seqs;
pub mod strings;
pub mod subscriptions;
pub mod types;
pub mod youtube;
