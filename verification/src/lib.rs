//! Verdicts, experiments and reports of the Kubernetes multi-tenancy validator.

pub mod assessment;
pub mod breach;
pub mod breach_evidence;
pub mod breach_laws;
pub mod cluster;
pub mod control_plane;
pub mod fairness;
pub mod isolation;
pub mod json;
pub mod multitenancy;
pub mod network;
pub mod objects;
pub mod paint;
pub mod pods;
pub mod render;
pub mod report;
pub mod report_laws;
pub mod run;
pub mod text;
pub mod words;
pub mod words_laws;
pub mod wrap;
