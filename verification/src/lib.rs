//! Turns the build plan of a package build tool into a build graph for an
//! incremental build executor.
//!
//! A [`BuildPlan`] is an ordered sequence of [`Invocation`]s. Each names the
//! steps it depends on by their positions in the plan. The graph builder,
//! [`BuildPlan::into_file`], resolves those positions to the files that the
//! named steps provide, gives every step a rule and a statement for each of
//! its outputs, adds the statements that make directories and aliases, and
//! merges all of it into one build file of `ninja_files_data`.
//!
//! The modules, from the ground up:
//!
//! - [`text`]: decimal numerals and prefix tests;
//! - [`path`]: paths, read as `camino` reads a Unix path;
//! - [`quote`]: shell quoting, done by `snailquote`;
//! - [`model`]: what a build file is, mathematically, and what declaring and
//!   merging do to it;
//! - [`ninja`]: the builders of `ninja_files_data`, with their contracts;
//! - [`plan`]: the invocation and what it exposes;
//! - [`rules`]: the shared rules and the rule of one invocation;
//! - [`graph`]: the build file of one invocation;
//! - [`builder`]: the plan and the graph builder;
//! - [`laws`]: what holds of every graph that the builder makes.
//!
//! The commands of the rules are commands of a Unix shell.

pub mod builder;
pub mod graph;
pub mod laws;
pub mod model;
pub mod ninja;
pub mod path;
pub mod plan;
pub mod quote;
pub mod rules;
pub mod text;

pub use builder::{BuildPlan, PlanError};
pub use plan::Invocation;
