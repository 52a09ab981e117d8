//! An in-memory, append-only index of immutable segments. Each segment
//! summarises the terms of one ingestion batch in a Bloom filter: a term that
//! was inserted is always reported present, a term that was not is reported
//! present only with small probability.
//!
//! - `source`: the lines of a term source and the test for valid text;
//! - `filter`: the Bloom filter and its sizing;
//! - `builder`: building a filter from a term source;
//! - `registry`: segment summaries and the registry that numbers them;
//! - `service`: creating and querying segments;
//! - `history`: what holds of a registry over every course of events;
//! - `clock`: timestamps.

pub mod builder;
pub mod clock;
pub mod filter;
pub mod history;
pub mod registry;
pub mod service;
pub mod source;
