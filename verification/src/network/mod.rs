//! The network: whether one tenant can reach another.

pub mod aims;
pub mod evidence;
pub mod laws;
pub mod node;
pub mod nodeport;
pub mod probes;
pub mod resources;
pub mod sweep;
pub mod verdicts;
