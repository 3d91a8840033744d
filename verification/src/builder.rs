//! The top-level build orchestrator: an ordered list of steps, each a
//! list of rules.  All rules of one step execute before the next step
//! starts, and the first error stops the build without advancing.
//!
//! The builder keeps the global metadata scope and the rule registry
//! across builds, so a second `build` on the same builder sees every
//! pair the version ledger already recorded and skips it.

use crate::compiler::Compiler;
use crate::config::Config;
use crate::error::Error;
use crate::metadata::Metadata;
use crate::rule::Rule;
use crate::runner::run_step;
use crate::snapshot::{reg_has, reg_index, Registry};
use crate::value::{obj_lookup, Value};
use vstd::prelude::*;

verus! {

pub struct Builder<C> {
    pub config: Config,
    pub global: Value,
    pub registry: Registry,
    pub steps: Vec<Vec<Rule<C>>>,
}

impl<C: Compiler> Builder<C> {
    /// A builder with the given configuration, an empty global scope
    /// holding a fresh version ledger, and no steps.
    pub fn new(config: Config) -> (r: Self)
        ensures
            r.global@ is Obj,
            r.steps@.len() == 0,
            r.config == config,
    {
        let meta = Metadata::new();
        Builder { config, global: meta.global, registry: Registry::new(), steps: Vec::new() }
    }

    /// Append one build step: a list of rules that execute within the
    /// same step, before any rule of a later step.
    pub fn add_step(self, step: Vec<Rule<C>>) -> (r: Self)
        ensures
            r.steps@ == self.steps@.push(step),
            r.config == self.config,
            r.global == self.global,
    {
        let mut steps = self.steps;
        steps.push(step);
        Builder { steps, ..self }
    }

    /// Run the registered steps in order.  Step `i + 1` starts only
    /// after every rule of step `i` has finished; the first error stops
    /// the build there and is returned, so no later step runs.  On
    /// success every rule of the last step has its result array in the
    /// global scope under the rule's name and stands finished in the
    /// registry.  A key an earlier step wrote stands when the next
    /// step begins; whether it survives the later steps is up to their
    /// compilers, which by convention write disjoint top-level keys;
    /// no contract can force that on a pluggable compiler.
    #[verifier::loop_isolation(false)]
    pub fn build(&mut self) -> (r: Result<(), Error>)
        requires
            old(self).global@ is Obj,
        ensures
            final(self).global@ is Obj,
            final(self).steps@ == old(self).steps@,
            final(self).config == old(self).config,
            r is Ok && old(self).steps@.len() > 0 ==> {
                let last = old(self).steps@.last();
                forall|k: int|
                    0 <= k < last.len() ==> match obj_lookup(
                        final(self).global.entries(),
                        (#[trigger] last[k]).name@,
                    ) {
                        Some(v) => v is Arr,
                        None => false,
                    }
            },
            r is Ok && old(self).steps@.len() > 0 ==> {
                let last = old(self).steps@.last();
                forall|k: int|
                    0 <= k < last.len() ==> reg_has(
                        final(self).registry.rules@,
                        (#[trigger] last[k]).name@,
                    ) && final(self).registry.rules@[reg_index(
                        final(self).registry.rules@,
                        last[k].name@,
                    )].finished
            },
    {
        let n = self.steps.len();
        let mut i: usize = 0;
        while i < n
            invariant
                i <= n,
                n == self.steps@.len(),
                self.global@ is Obj,
                self.steps@ == old(self).steps@,
                self.config == old(self).config,
                i > 0 ==> {
                    let prev = self.steps@[i - 1];
                    forall|k: int|
                        0 <= k < prev.len() ==> match obj_lookup(
                            self.global.entries(),
                            (#[trigger] prev[k]).name@,
                        ) {
                            Some(v) => v is Arr,
                            None => false,
                        }
                },
                i > 0 ==> {
                    let prev = self.steps@[i - 1];
                    forall|k: int|
                        0 <= k < prev.len() ==> reg_has(
                            self.registry.rules@,
                            (#[trigger] prev[k]).name@,
                        ) && self.registry.rules@[reg_index(
                            self.registry.rules@,
                            prev[k].name@,
                        )].finished
                },
            decreases n - i,
        {
            let step = &self.steps[i];
            match run_step(&mut self.global, &mut self.registry, &self.config, step) {
                Ok(()) => {},
                Err(e) => {
                    return Err(e);
                },
            }
            i = i + 1;
        }
        Ok(())
    }

    /// The global metadata scope accumulated so far.
    pub fn global(&self) -> (r: &Value)
        ensures
            r == &self.global,
    {
        &self.global
    }
}

} // verus!
