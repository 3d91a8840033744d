//! Small structural compilers: a stage marker that suspends a fixed
//! number of times, and the pipe that chains compilers in sequence.

use crate::compiler::{CompileStep, Compiler};
use crate::context::Context;
use crate::error::Error;
use vstd::prelude::*;

verus! {

/// A compiler that emits `WaitStage` a fixed number of times before
/// completing: it synchronizes its rule's tasks at as many barriers.
pub struct WaitStage {
    pub steps: usize,
    pub current: usize,
}

impl WaitStage {
    /// Wait at a single barrier.
    pub fn new() -> (r: Self)
        ensures
            r.steps == 1,
            r.current == 0,
    {
        WaitStage { steps: 1, current: 0 }
    }

    /// Wait at `steps` consecutive barriers.
    pub fn wait_steps(steps: usize) -> (r: Self)
        ensures
            r.steps == steps,
            r.current == 0,
    {
        WaitStage { steps, current: 0 }
    }
}

impl Compiler for WaitStage {
    /// Suspend while fewer than `steps` barriers have been passed,
    /// then complete; the context goes through untouched.
    fn next_step(&mut self, ctx: Context) -> (r: Result<CompileStep, Error>)
        ensures
            old(self).current < old(self).steps ==> (r matches Ok(step) && step matches
                CompileStep::WaitStage(c) && c == ctx && final(self).current == old(self).current
                + 1),
            old(self).current >= old(self).steps ==> (r matches Ok(step) && step matches
                CompileStep::Completed(c) && c == ctx && *final(self) == *old(self)),
    {
        if self.current < self.steps {
            self.current = self.current + 1;
            Ok(CompileStep::WaitStage(ctx))
        } else {
            Ok(CompileStep::Completed(ctx))
        }
    }

    fn duplicate(&self) -> Self {
        WaitStage { steps: self.steps, current: self.current }
    }
}

/// A compiler built by piping smaller ones: each constituent runs to
/// completion before the next starts, and the pipe completes with the
/// last one.
pub struct PipeCompiler<C> {
    pub compilers: Vec<C>,
    pub current: usize,
}

impl<C: Compiler> PipeCompiler<C> {
    pub fn new() -> (r: Self)
        ensures
            r.compilers@.len() == 0,
            r.current == 0,
    {
        PipeCompiler { compilers: Vec::new(), current: 0 }
    }

    /// Append one constituent compiler.
    pub fn add_compiler(self, compiler: C) -> (r: Self)
        ensures
            r.compilers@ == self.compilers@.push(compiler),
            r.current == self.current,
    {
        let mut compilers = self.compilers;
        compilers.push(compiler);
        PipeCompiler { compilers, current: self.current }
    }
}

impl<C: Compiler> Compiler for PipeCompiler<C> {
    /// Step the current constituent.  Its completion advances the
    /// pipe; the pipe itself completes exactly when the last
    /// constituent has; in-progress and waiting outcomes, and errors,
    /// pass through with the position unchanged.
    fn next_step(&mut self, ctx: Context) -> (r: Result<CompileStep, Error>)
        ensures
            old(self).current >= old(self).compilers@.len() ==> (r matches Ok(step)
                && step matches CompileStep::Completed(c) && c == ctx && *final(self) == *old(self)),
            final(self).compilers@.len() == old(self).compilers@.len(),
            final(self).current >= old(self).current,
            r matches Ok(step) ==> (step is Completed ==> (final(self).current >= final(self).compilers@.len())),
            r matches Ok(step) ==> (step is Completed && old(self).current < old(self).compilers@.len() ==> final(self).current == old(self).current + 1),
            r matches Ok(step) ==> (step is InProgress ==> (final(self).current == old(self).current + 1 && final(self).current < final(self).compilers@.len() || final(self).current == old(self).current)),
            r matches Ok(step) ==> (step is WaitStage ==> final(self).current == old(self).current),
            r is Err ==> final(self).current == old(self).current,
    {
        if self.current >= self.compilers.len() {
            return Ok(CompileStep::Completed(ctx));
        }
        let idx = self.current;
        let res = self.compilers[idx].next_step(ctx);
        match res {
            Ok(CompileStep::Completed(c)) => {
                self.current = self.current + 1;
                if self.current == self.compilers.len() {
                    Ok(CompileStep::Completed(c))
                } else {
                    Ok(CompileStep::InProgress(c))
                }
            },
            other => other,
        }
    }

    fn duplicate(&self) -> Self {
        let mut compilers: Vec<C> = Vec::new();
        let mut i: usize = 0;
        while i < self.compilers.len()
            invariant
                i <= self.compilers@.len(),
            decreases self.compilers@.len() - i,
        {
            compilers.push(self.compilers[i].duplicate());
            i = i + 1;
        }
        PipeCompiler { compilers, current: self.current }
    }
}

} // verus!
