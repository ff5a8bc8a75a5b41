//! An interactive terminal agent's core: it turns a model's free-text replies
//! into shell commands under a fixed protocol, screens them against a safety
//! policy, feeds their results back, and bounds both the conversation and the
//! number of round trips in a turn.
//!
//! The outside work (the model backend, the shell, the terminal) is left to
//! the caller, which drives [`orchestrator::Orchestrator::step`].
use vstd::prelude::*;

pub mod correction;
pub mod execution;
pub mod guarantees;
pub mod history;
pub mod input;
pub mod message;
pub mod orchestrator;
pub mod parser;
pub mod safety;
pub mod text;

verus! {

} // verus!
