//! Deterministic verifier interfaces for the game-integrity runtime.
pub mod bjson;
pub mod bjson_laws;
pub mod freshness;
pub mod http;
pub mod mock_replay;
pub mod model;
pub mod service;
pub mod text;
pub mod verification;
