//! Compiles a nested declaration of editor plugins into a flat, deduplicated
//! load plan: declarations are expanded, unpacked into component records,
//! merged by id, and their trigger and dependency indexes are aggregated.

pub mod aggregate;
pub mod bundle;
pub mod collection;
pub mod content;
pub mod expand;
pub mod id_generator;
pub mod id_table;
pub mod load_config;
pub mod lua;
pub mod merge;
pub mod payload;
pub mod synth;
pub mod unpack;
