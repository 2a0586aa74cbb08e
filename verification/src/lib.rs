//! Template materialization: turns a parameterized template tree into a
//! concrete project tree, with every write confined to a chosen output root.

pub mod args;
pub mod document;
pub mod error;
pub mod filter;
pub mod guard;
pub mod hooks;
pub mod json;
pub mod manifest;
pub mod number;
pub mod materializer;
pub mod paths;
pub mod prompt;
pub mod registry;
pub mod render;
pub mod resolver;
pub mod resolver_laws;
pub mod slug;
pub mod source;
pub mod steps;
pub mod steps_laws;
pub mod text;
pub mod values;
pub mod vcs;
