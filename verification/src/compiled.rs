//! The catalog: what a directory of declarations compiles to.
pub mod achievement;
pub mod building;
pub mod game;
pub mod source;
pub mod upgrade;
