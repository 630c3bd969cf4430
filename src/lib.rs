//! Generates `.gitignore` files from a local mirror of a template collection.
//!
//! The library holds the decisions of the pipeline: where the mirror lives,
//! whether it has to be cloned, which files of the mirror are templates and
//! under which key, and how the requested templates are put together.

mod text;
pub mod config;
pub mod index;
pub mod compose;
pub mod mirror;
pub mod cli;
