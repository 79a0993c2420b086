//! Resolve a MultiMC/Prism instance into a runnable `java` command.

pub mod archive;
pub mod assemble;
pub mod assets;
pub mod cli;
pub mod coordinate;
pub mod digest;
pub mod download;
pub mod emit;
pub mod exit;
pub mod java;
pub mod lists;
pub mod load;
pub mod merge;
pub mod meta;
pub mod model;
pub mod natives;
pub mod number;
pub mod paths;
pub mod pattern;
pub mod pipeline;
pub mod platform;
pub mod replicate;
pub mod resolve;
pub mod rules;
pub mod string_map;
pub mod text;
