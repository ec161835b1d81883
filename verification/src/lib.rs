//! What an event-driven chat bot for QQ groups decides and computes, layer by
//! layer, with proofs.

pub mod clock;
pub mod config;
pub mod cooldown;
pub mod council;
pub mod detective;
pub mod error;
pub mod gate;
pub mod graph;
pub mod ident;
pub mod json;
pub mod laws;
pub mod llm;
pub mod maps;
pub mod napcat;
pub mod number;
pub mod observe;
pub mod onebot;
pub mod router;
pub mod secret;
pub mod sensory;
pub mod single;
pub mod solidify;
pub mod status;
pub mod store;
pub mod table;
pub mod text;
pub mod types;
pub mod vector_store;
