//! Configuration schema for a vision, guidance and communication platform,
//! and the scripted prompting logic that assembles one configuration.

pub mod text;
pub mod scalar;
pub mod tuple;
pub mod schema;
pub mod prompt;
pub mod area;
pub mod builder;
