//! Molecular topology and interaction configuration: canonical bonded terms,
//! topological distance between particles, pair restrictions, and the
//! catalog of interactions read from a configuration document.
pub mod catalog;
pub mod connectivity;
pub mod decimal;
pub mod document;
pub mod error;
pub mod restriction;
pub mod system;
pub mod topology;
