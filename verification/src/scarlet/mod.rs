//! Configuration of the injected module and the patches it applies.

pub mod config;
pub mod environment;
pub mod objects;
pub mod patching;
