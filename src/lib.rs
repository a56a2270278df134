use vstd::prelude::*;

pub mod binding;
pub mod framing;
pub mod sim;
pub mod topology;
pub mod transform;

verus! {

/// The logical process that runs the echo service.
pub struct EchoServer;

} // verus!
