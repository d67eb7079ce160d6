//! Verified core of the instruckt annotation store.
pub mod bindings;
pub mod clock;
pub mod error;
pub mod json;
pub mod laws;
pub mod mcp;
pub mod paths;
pub mod project;
pub mod screenshot;
pub mod state;
pub mod store;
pub mod text;
pub mod types;
