//! Loads delimited text into memory, names its columns, and writes it into
//! an SQLite table, one row per record.

pub mod cli;
pub mod csvcache;
pub mod naming;
pub mod sql;
pub mod writer;
