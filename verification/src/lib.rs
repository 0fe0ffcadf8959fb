//! Generates the source text of an Elm module that gives a game typed keys,
//! a loading-time builder and a finished pack for its textures and sounds.

pub mod emit;
pub mod laws;
pub mod manifest;
pub mod model;
pub mod naming;
pub mod semantics;
pub mod text;
pub mod validate;
