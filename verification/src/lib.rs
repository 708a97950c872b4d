//! Requirements knowledge graph: items, relationships, parsing,
//! traversal, reports and edits.
pub mod cli;
pub mod config;
pub mod diff;
pub mod edit;
pub mod error;
pub mod export;
pub mod generator;
pub mod graph;
pub mod init;
pub mod interactive;
pub mod model;
pub mod ordered;
pub mod output;
pub mod parser;
pub mod query;
pub mod report;
pub mod text;
