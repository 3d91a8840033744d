//! A small build-orchestration engine in the style of a static site
//! generator: named rules match source paths, drive a multi-step
//! compiler state machine over a shared metadata store, and
//! synchronize through per-rule stage barriers.
//!
//! The pieces, leaves first:
//!
//! - [`value`]: the JSON-like metadata value with its deep merge;
//!   [`merge_laws`] states the merge's laws, [`bytes`] the numeric
//!   byte encoding and its exact round trip.
//! - [`metadata`] and [`context`]: the two-scope store (global and
//!   per-task local) and the working state a compiler step sees.
//! - [`ledger`]: which (version, path) pairs were already scheduled,
//!   and the law that scheduling the same pair twice does nothing.
//! - [`snapshot`]: per-task snapshot stages, the per-rule manager
//!   whose aggregate stage is the minimum over its tasks, and the
//!   registry that lets one rule wait on another.
//! - [`compiler`]: the three-outcome step contract and the compilers
//!   shipped with the engine.
//! - [`rule`], [`runner`], [`builder`]: matching and filtering source
//!   paths, the round-robin task driver with the intra-rule barrier,
//!   and the step-by-step orchestrator.

pub mod builder;
pub mod bytes;
pub mod compiler;
pub mod config;
pub mod context;
pub mod convert;
pub mod error;
pub mod ledger;
pub mod merge_laws;
pub mod metadata;
pub mod paths;
pub mod router;
pub mod rule;
pub mod runner;
pub mod snapshot;
pub mod value;

pub use builder::Builder;
pub use compiler::{CompileStep, Compiler};
pub use config::Config;
pub use context::{Context, Version};
pub use error::Error;
pub use rule::Rule;
pub use metadata::Metadata;
pub use value::{merge_values, Value, ValueView};
