//! Compilers that interact with the snapshot machinery: one that
//! records the current local scope as a snapshot, and one that holds a
//! task until other rules' aggregate stages are high enough.

use crate::compiler::{CompileStep, Compiler};
use crate::context::Context;
use crate::error::Error;
use crate::snapshot::{reg_has, reg_index, stage_count};
use crate::value::clone_string;
use vstd::prelude::*;

verus! {

/// Record the current local scope as a snapshot, without suspending.
pub struct SaveSnapshot {}

impl SaveSnapshot {
    pub fn new() -> (r: Self) {
        SaveSnapshot {  }
    }
}

impl Compiler for SaveSnapshot {
    /// Ask the runner to record a snapshot of the local scope and
    /// complete at once; the metadata goes through untouched.
    fn next_step(&mut self, ctx: Context) -> (r: Result<CompileStep, Error>)
        ensures
            r matches Ok(step) && step matches CompileStep::Completed(c) && c.meta == ctx.meta
                && c.snapshot_requested,
    {
        let mut ctx = ctx;
        ctx.request_snapshot();
        Ok(CompileStep::Completed(ctx))
    }

    fn duplicate(&self) -> Self {
        SaveSnapshot {  }
    }
}

/// Hold the task until, for every listed (rule, stage) pair, the named
/// rule's aggregate stage has reached the stage (or the rule has
/// finished).  Waiting on a rule that never began executing fails.
pub struct WaitSnapshot {
    pub rule_stage_set: Vec<(String, usize)>,
}

/// One (rule, stage) pair is satisfied by the registry `rules`: the
/// named rule is registered and has finished or reached the stage.
pub open spec fn pair_reached(
    rules: Seq<crate::snapshot::RuleStatus>,
    name: Seq<char>,
    until: usize,
) -> bool {
    &&& reg_has(rules, name)
    &&& ({
        let st = rules[reg_index(rules, name)];
        st.finished || forall|s: int|
            0 <= s < st.manager.stages@.len() ==> stage_count(st.manager.stages@, s) >= until
    })
}

/// Every listed pair is satisfied by the registry `rules`.
pub open spec fn all_reached(
    rules: Seq<crate::snapshot::RuleStatus>,
    set: Seq<(String, usize)>,
) -> bool {
    forall|i: int|
        0 <= i < set.len() ==> pair_reached(rules, (#[trigger] set[i]).0@, set[i].1)
}

impl WaitSnapshot {
    /// Wait for nothing yet; add pairs with [`WaitSnapshot::wait`].
    pub fn new() -> (r: Self)
        ensures
            r.rule_stage_set@.len() == 0,
    {
        WaitSnapshot { rule_stage_set: Vec::new() }
    }

    /// Also wait until `rule`'s aggregate stage reaches `until` (in
    /// most cases 1: every task of that rule has taken its first
    /// snapshot).
    pub fn wait(self, rule: &str, until: usize) -> (r: Self)
        ensures
            r.rule_stage_set@.len() == self.rule_stage_set@.len() + 1,
            r.rule_stage_set@.last().0@ == rule@,
            r.rule_stage_set@.last().1 == until,
            r.rule_stage_set@.take(self.rule_stage_set@.len() as int) == self.rule_stage_set@,
    {
        let mut set = self.rule_stage_set;
        set.push((rule.to_owned(), until));
        WaitSnapshot { rule_stage_set: set }
    }
}

/// Check every listed pair against the registry: unknown rules fail,
/// an unsatisfied pair polls again later, and full satisfaction
/// completes.
#[verifier::loop_isolation(false)]
pub fn wait_snapshot_step(set: &Vec<(String, usize)>, ctx: Context) -> (r: Result<
    CompileStep,
    Error,
>)
    requires
        ctx.wf(),
    ensures
        r matches Ok(step) ==> step.ctx() == ctx,
        r matches Ok(step) ==> (step is Completed || step is InProgress),
        r matches Ok(step) ==> (step matches CompileStep::Completed(_) ==> all_reached(
            ctx.registry.rules@,
            set@,
        )),
        r matches Ok(step) ==> (step matches CompileStep::InProgress(_) ==> !all_reached(
            ctx.registry.rules@,
            set@,
        )),
        r matches Err(e) ==> e is UnknownRule && exists|i: int|
            0 <= i < set@.len() && !reg_has(ctx.registry.rules@, (#[trigger] set@[i]).0@),
{
    let mut i: usize = 0;
    while i < set.len()
        invariant
            i <= set@.len(),
            forall|j: int|
                0 <= j < i ==> pair_reached(ctx.registry.rules@, (#[trigger] set@[j]).0@, set@[j].1),
        decreases set@.len() - i,
    {
        match ctx.rule_stage_reached(set[i].0.as_str(), set[i].1) {
            Err(e) => {
                return Err(e);
            },
            Ok(false) => {
                proof {
                    assert(!pair_reached(ctx.registry.rules@, set@[i as int].0@, set@[i as int].1));
                }
                return Ok(CompileStep::InProgress(ctx));
            },
            Ok(true) => {},
        }
        i = i + 1;
    }
    Ok(CompileStep::Completed(ctx))
}

impl Compiler for WaitSnapshot {
    /// Check every listed pair against the registry: unknown rules
    /// fail, an unsatisfied pair polls again later, and full
    /// satisfaction completes; the context goes through untouched.
    fn next_step(&mut self, ctx: Context) -> (r: Result<CompileStep, Error>)
        ensures
            r matches Ok(step) ==> step.ctx() == ctx,
            r matches Ok(step) ==> (step is Completed || step is InProgress),
            r matches Ok(step) ==> (step matches CompileStep::Completed(_) ==> all_reached(
                ctx.registry.rules@,
                old(self).rule_stage_set@,
            )),
            r matches Ok(step) ==> (step matches CompileStep::InProgress(_) ==> !all_reached(
                ctx.registry.rules@,
                old(self).rule_stage_set@,
            )),
            r matches Err(e) ==> e is UnknownRule,
    {
        wait_snapshot_step(&self.rule_stage_set, ctx)
    }

    fn duplicate(&self) -> Self {
        let mut set: Vec<(String, usize)> = Vec::new();
        let mut i: usize = 0;
        while i < self.rule_stage_set.len()
            invariant
                i <= self.rule_stage_set@.len(),
            decreases self.rule_stage_set@.len() - i,
        {
            set.push((clone_string(&self.rule_stage_set[i].0), self.rule_stage_set[i].1));
            i = i + 1;
        }
        WaitSnapshot { rule_stage_set: set }
    }
}

} // verus!
