//! Reed.toml configuration: its structure, validation, and the CSV values
//! it is synchronised to.
pub mod toml_parser;
pub mod toml_to_csv;
