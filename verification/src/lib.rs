//! Concurrent recursive text search: the verified core.
//!
//! A directory walk produces one [`job::Job`] per regular file, a fixed pool of
//! workers takes jobs from a shared [`worklist::Worklist`], scans each file line
//! by line and reports every matching line. This crate holds the rules of that
//! pipeline; reading directories and files is left to the caller.

pub mod channel;
pub mod cli;
pub mod discovery;
pub mod error;
pub mod job;
pub mod paths;
pub mod protocol;
pub mod result;
pub mod scan;
pub mod sink;
pub mod worker;
pub mod worklist;
