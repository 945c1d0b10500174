//! ReedCMS core library: CSV records, CLI parsing and routing, build helpers.
use vstd::prelude::*;

pub mod text;
pub mod string_map;
pub mod reedstream;
pub mod report;
pub mod lists;
pub mod csv;
pub mod cli;
pub mod build;
pub mod config;
pub mod debug;
pub mod json;

verus! {
} // verus!
