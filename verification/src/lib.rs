//! Streaming converter for MySQL logical dumps: classifies each input line
//! into a statement kind, accumulates multi-line `CREATE TABLE` bodies, and
//! rewrites them into the DDL dialect accepted by a Databend server.

pub mod api;
pub mod classify;
pub mod filter;
pub mod laws;
pub mod parser;
pub mod rewrite;
pub mod text;
