//! Types shared by every part of the engine.

pub mod errors;
