//! The core of a small weblog: reading articles out of Markdown files with a
//! front-matter header, deciding what to publish, and ordering what is
//! shown.

pub mod blog;
pub mod date;
pub mod error;
pub mod ingest;
pub mod metadata;
pub mod number;
pub mod order;
pub mod pagination;
pub mod pattern;
pub mod render;
pub mod run;
pub mod search;
pub mod subscriber;
pub mod tags;
pub mod text;
