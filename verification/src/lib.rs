//! Editor-integration backend for markdown documents: an in-memory document
//! store with incremental edits, a trigger-context parser, completion
//! synthesis over cached project metadata (issues, members, repositories,
//! wiki pages), and a hover link resolver.

pub mod cache;
pub mod complete;
pub mod document;
pub mod entity;
pub mod gh;
pub mod hover;
pub mod session;
pub mod strutil;
pub mod trigger;
pub mod wiki;
