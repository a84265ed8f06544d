//! Engine data: native layouts and the values read from them.

pub mod asset_factory;
pub mod game_module;
pub mod ebex;
pub mod flag_names;
pub mod name_map;
pub mod native;
pub mod offsets;
pub mod pseudocode;
pub mod pseudocode_lines;
pub mod x86;
