//! Verified core of the Luminous Engine tooling: hashing of names and asset
//! paths, asset identifiers, pointer arithmetic over game memory, the native
//! memory layouts of engine objects and the decisions that the launcher and
//! the injected module take.

pub mod asset_id;
pub mod engine;
pub mod hash;
pub mod memory;
pub mod text;
pub mod scarlet;
