//! The engine's structures as they lie in the game's memory.

pub mod array;
pub mod asset_factory;
pub mod ebex;
pub mod game_module;
pub mod layout;
pub mod map;
pub mod mutex;
pub mod pointer;
pub mod string;
