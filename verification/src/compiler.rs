//! The compiler contract: a multi-step, possibly-suspending
//! transformation over a build context.
//!
//! Each invocation of [`Compiler::next_step`] returns one of three
//! outcomes.  `Completed` ends the task; `InProgress` asks to be
//! invoked again; `WaitStage` records the task's local metadata as a
//! snapshot and suspends the task until every sibling task of the same
//! rule has taken at least as many snapshots.

use crate::context::Context;
use crate::error::Error;
use vstd::prelude::*;

pub mod markdown;
pub mod metadata;
pub mod path;
pub mod snapshot;
pub mod template;
pub mod utils;

verus! {

/// The outcome of one compiler step, carrying the possibly modified
/// context.
pub enum CompileStep {
    /// The compilation task is completed.
    Completed(Context),
    /// The compilation task has more steps; invoke `next_step` again.
    InProgress(Context),
    /// The task waits for its sibling tasks to reach the same stage.
    WaitStage(Context),
}

impl CompileStep {
    /// The context carried by any of the three outcomes.
    pub open spec fn ctx(self) -> Context {
        match self {
            CompileStep::Completed(c) => c,
            CompileStep::InProgress(c) => c,
            CompileStep::WaitStage(c) => c,
        }
    }
}

/// A pluggable multi-step transformation.  The task runner drives one
/// copy of a compiler per matched source path.
pub trait Compiler: Sized {
    /// Execute the next step of the compilation.  The context handed
    /// in is well-formed; the task runner checks the shape of whatever
    /// comes back before folding metadata onward.
    fn next_step(&mut self, ctx: Context) -> (r: Result<CompileStep, Error>)
        requires
            ctx.wf(),
    ;

    /// The duplication capability: a fresh copy to drive one task,
    /// so that stateful compilers can be spawned per matched path.
    fn duplicate(&self) -> Self;
}

} // verus!
