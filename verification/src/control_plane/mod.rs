//! The control plane: which API operations reach across tenants.

pub mod assessor;
pub mod autonomy;
pub mod conduct;
pub mod errors;
pub mod existing;
pub mod experiment;
pub mod isolation;
pub mod laws;
pub mod manifests;
pub mod manual;
pub mod manual_laws;
pub mod names;
pub mod resources;
