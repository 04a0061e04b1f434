//! A library for managing a shared store of reusable markdown snippets.
//!
//! Snippets are markdown documents carrying a small frontmatter block of
//! metadata. The library provides the frontmatter codec, a deterministic
//! match scorer used to pick the best snippet for a free-text query, the
//! decision logic of an oracle-assisted file resolver with graceful
//! degradation, and the decision logic of the repository synchronizer
//! that keeps a local snippet repository consistent with a remote.
//!
//! All filesystem access and external processes (the version-control
//! binary, the hosting CLI, the external matcher) live outside this
//! crate; the library works on plain values handed in by its caller.
#![verifier::loop_isolation(false)]

pub mod codec;
pub mod config;
pub mod install;
pub mod matcher;
pub mod names;
pub mod paths;
pub mod repo;
pub mod resolver;
pub mod search;
pub mod snippet;
pub mod sync;
pub mod text;
