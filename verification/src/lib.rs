//! A concurrent file-name search: producers list directories, an
//! orchestrator dispatches what they find, and consumers report every
//! entry whose name matches the query.

pub mod cli;
pub mod config;
pub mod defs;
pub mod handler;
pub mod local_consumer;
pub mod matching;
pub mod orchestrator;
pub mod producer;
pub mod remote_consumer;
pub mod text;
pub mod traversal;
