//! File history over a per-path version graph, and the rules of the
//! programs around it.
//!
//! Given the content-addressed identifier of one version of a file at a
//! repository path, the library reconstructs that file's ancestry by a
//! breadth-first walk over parent links, and decides whether one version is
//! an ancestor of another. The walk is an explicit state object: it never
//! performs I/O itself, it reports which record it needs and continues once
//! the caller has supplied it.
//!
//! - [`types`], [`error`]: filenodes, paths, records, entries, failures.
//! - [`prefetch`]: the cache of records that a walk starts with.
//! - [`walker`]: the walk, step by step.
//! - [`resolve`]: what to make of a lookup in the filenode store.
//! - [`related`]: whether one filenode is an ancestor of another.
//! - [`model`], [`laws`]: the walk as mathematics, and what holds of every
//!   walk.
//!
//! Beside the history stand the decisions of three programs that serve
//! repositories: which hooks a repository loads ([`hook_loader`]), which
//! release group and tiers a host belongs to ([`dynamicconfig`]), and what a
//! command-line relay and the HTTP handlers make of their input ([`hgcli`],
//! [`handlers_util`]). [`name_set`] and [`words`] serve them.

pub mod dynamicconfig;
pub mod error;
pub mod handlers_util;
pub mod hgcli;
pub mod hook_loader;
pub mod laws;
pub mod model;
pub mod name_set;
pub mod prefetch;
pub mod related;
pub mod resolve;
pub mod types;
pub mod walker;
pub mod words;
