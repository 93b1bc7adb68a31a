//! A workspace launcher's core: a registry of named project paths, directory
//! scanning with exclusion rules, and the decisions of the selection menu.
pub mod config_text;
pub mod paths_map;
pub mod registry;
pub mod scan;
pub mod select;
pub mod sorting;
pub mod text;
