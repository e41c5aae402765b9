//! Core of a personal knowledge base: documents with an optional
//! `key: value` header block, identity derived from the header or the
//! file name, and JSON relationship files decoded into plain edges.
//!
//! Every function here is pure: the surrounding application reads files
//! and directories and hands their contents in as plain values.

pub mod config;
pub mod header;
pub mod identity;
pub mod json;
pub mod node;
pub mod relationships;
pub mod text;
