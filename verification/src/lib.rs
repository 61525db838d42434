//! Recursive file-name and file-content search engines.
//!
//! The library holds the traversal-independent core of a small search tool:
//! classification of files (binary detection, extension filters), pattern
//! compilation (literal and regex modes), per-line match collection, result
//! aggregation and grouping, and plain-text result rendering. Filesystem
//! walking and console output live in the surrounding application; the
//! engines here are functions over the data that the application hands them.
//!
//! Paths are handled throughout as `/`-separated text: base name, parent
//! directory and extension are read against that separator alone. An
//! application on a platform with another separator converts its paths
//! before handing them over.

pub mod file_search;
pub mod grep_search;
pub mod pattern;
pub mod text;
pub mod utils;
