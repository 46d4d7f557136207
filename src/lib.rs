//! Persistence, indexing and token-ledger core of a publishing backend:
//! repositories with serial ids and secondary indexes kept in step with
//! their records, and a fungible-token ledger whose balance cache always
//! agrees with its transaction log.

pub mod api;
pub mod cache;
pub mod draft;
pub mod index;
pub mod laws;
pub mod ledger;
pub mod ledger_model;
pub mod scoring;
pub mod service;
pub mod story;
pub mod story_service;
pub mod token_types;
pub mod types;
pub mod user;
pub mod utils;
