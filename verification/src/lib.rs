//! A music download script's library: the input-file format, the command
//! line, and the planning of downloads, covers, searches and cleaning.
pub mod text;
pub mod parser;
pub mod options;
pub mod args;
pub mod download;
pub mod cover;
pub mod search;
pub mod clean;
