//! A bounded-storage ingestion service: a quota-enforcing file store with
//! oldest-first eviction, a multipart upload ingestor, and an analyzer
//! invocation pipeline, modelled over plain values and verified.

pub mod analysis;
pub mod errors;
pub mod eviction;
pub mod fsmodel;
pub mod ingest;
pub mod pipeline;
pub mod text;

