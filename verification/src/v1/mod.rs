//! Semantic convention definitions, version 1.

pub mod semconv;
pub mod manifest;
