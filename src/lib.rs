//! Client-side proof job lifecycle: job descriptions and results, a local
//! job registry, and the status-polling decisions of a remote backend.

pub mod prover;
pub mod local;
pub mod remote;
pub mod laws;
