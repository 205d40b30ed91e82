//! The runtime that Kafka deliveries are driven by.
use vstd::prelude::*;

verus! {

/// The async runtime that the Kafka producer runs its deliveries on.
pub struct SmolRuntime;

} // verus!
