//! A registration, challenge and verification engine.
//!
//! An applicant registers and is handed a random challenge string; the
//! canonical answer is the table of how often each window of three characters
//! occurs in it. Submissions are compared with that table and the outcome of
//! every attempt is recorded. The durable store itself lives outside this
//! library: the functions here compute what is handed to it and decide what
//! its answers mean.

pub mod challenge;
pub mod config;
pub mod engine;
pub mod errors;
pub mod kmers;
pub mod messages;
pub mod query;
pub mod responses;
pub mod status;
pub mod store;
