//! The decisions of a service that has proofs made.
//!
//! A request is taken in, becomes a task, and is worked on by provers, on many machines
//! or on one. Each part is a machine of states: a state names what is to be done outside,
//! and its `answer` takes what came of it and gives the next state.
use vstd::prelude::*;

pub mod cache;
pub mod codec;
pub mod digest;
pub mod generate;
pub mod gpu;
pub mod intake_laws;
pub mod layout;
pub mod manager;
pub mod memory;
pub mod network;
pub mod outcome;
pub mod protocol;
pub mod request_laws;
pub mod root_prover;
pub mod round_laws;
pub mod service;
pub mod service_laws;
pub mod signature;
pub mod single_node_prover;
pub mod startup;
pub mod status_laws;
pub mod text;
pub mod view_laws;
pub mod worker;
pub mod worker_laws;

verus! {

/// How many proofs the first layer of an aggregation takes at a time.
pub const FIRST_LAYER_BATCH_SIZE: usize = 1;

} // verus!
