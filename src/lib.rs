//! Game-data substrate for a creature-battling game: a string interner, a
//! bounded duplicate-free tag set, elemental and type kinds, and a
//! name-keyed ability registry.

pub mod ability_map;
pub mod ability_names;
pub mod echo_session;
pub mod elements;
pub mod global_string;
pub mod palette;
pub mod tag_set;
pub mod types;
