//! Fairness: how a tenant fares while another one presses hard.

pub mod clock;
pub mod control_plane;
pub mod export;
pub mod grade;
pub mod measure;
pub mod network;
pub mod network_laws;
pub mod outcome;
pub mod outcome_laws;
pub mod qos;
pub mod runner;
pub mod scenario;
pub mod schedule;
pub mod workload_laws;
