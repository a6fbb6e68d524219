//! A coverage-guided fuzzing harness hosted in a full-system simulator: the coordinator that
//! joins the fuzzer and the simulator, the coverage map and its edge hash, the injection of
//! inputs into guest memory, the message encoding, and the description of simulator projects.

pub mod bootstrap;
pub mod bytes;
pub mod config;
pub mod coverage;
pub mod error;
pub mod harness;
pub mod inject;
pub mod message;
pub mod project;
pub mod properties;
