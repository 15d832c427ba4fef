//! A URL shortener core: random six-character aliases, an insert-if-absent
//! mapping store, and the service that ties the two together.
//!
//! - [`alias`] draws aliases and says what a well-formed one is.
//! - [`validate`] decides which texts may be shortened.
//! - [`store`] holds the mappings and enforces that a short code is unique.
//! - [`service`] shortens and resolves, over the in-memory store or, one
//!   decision at a time, over a store that lives elsewhere.
//! - [`http`] words each result as a reply with its status.
//! - [`config`] holds the settings.
//! - [`laws`] proves what holds of every run of the service.

pub mod alias;
pub mod config;
pub mod http;
pub mod laws;
pub mod service;
pub mod store;
pub mod validate;
