//! Task-list statistics with a binding digest, the input and public-values
//! wire formats of the proved computation, and the host-side prove/verify
//! protocol.

pub mod digest;
pub mod input;
pub mod session;
pub mod task;
pub mod wire;
