//! Feasibility benchmarks for a privacy-preserving validation pipeline.
//!
//! The core is a threshold quorum-collection engine: a population of simulated
//! validators answers a decryption request, each after its own network delay,
//! and collection stops as soon as a threshold of shares has arrived. Time is
//! kept on a simulated clock, so a run is a function of the delay assignment.
//! Two smaller harnesses measure encrypted contract execution and STARK proof
//! generation.

pub mod error;
pub mod topology;
pub mod params;
pub mod order;
pub mod stats;
pub mod validator;
pub mod timing;
pub mod result;
pub mod collector;
pub mod schedule;
pub mod coordinator;
pub mod guarantees;
pub mod benchmark;
pub mod clock;
pub mod execution;
pub mod stark;
