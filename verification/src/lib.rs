//! Verified core of a command-line front end to a native PDF engine: the
//! error model, the page-interval and geometry mini-languages, and the
//! buffer and encoding rules that sit between the tool and the engine.

pub mod bitmap;
pub mod commands;
pub mod error;
pub mod geometry;
pub mod object;
pub mod render;
pub mod save;
pub mod syntax;
pub mod text;
