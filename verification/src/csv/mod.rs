//! Pipe-delimited CSV records (`key|value|description`).
//!
//! `record` parses and renders one row; `content` parses and renders a
//! whole file's text. Reading and writing the files is left to callers.
pub mod record;
pub mod content;
pub mod store;

pub use record::{create_row, parse_row, CsvRecord};
pub use content::{build_csv_content, parse_csv_content};
