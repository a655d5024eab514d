//! Data carried between clients, the coordinator and storage.

pub mod api_models;
pub mod errors;
pub mod guardian;
pub mod json;
