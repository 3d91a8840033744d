//! The task runner: one concurrent task per matched path, driven as a
//! deterministic round-robin over every task of every rule in the
//! step.
//!
//! Each turn invokes the task's compiler once and folds the returned
//! context back into the engine.  A task that returns `WaitStage`
//! records a snapshot and suspends; it is eligible to run again only
//! when every sibling task of its rule has taken at least as many
//! snapshots (a finished or failed sibling no longer holds the barrier
//! up, since it will never take another).  The round-robin steps only
//! eligible tasks, so a suspended task never receives its next step
//! while an unfinished sibling is behind: that is the intra-rule
//! barrier, stated by [`law_intra_rule_barrier`].  A task that
//! reports more steps simply stays eligible and continues on the
//! next round, so sibling rules progress between two of its steps.

use crate::compiler::{CompileStep, Compiler};
use crate::config::Config;
use crate::context::Context;
use crate::error::Error;
use crate::ledger::{
    filter_new, lemma_ledger_record, lemma_upsert_lookup, ledger_record, paths_view,
    spec_filter_new, spec_ledger_has, spec_ledger_record,
};
use crate::metadata::{
    Metadata, PATH_META, RULE_META, SOURCE_FILE_META, TARGET_FILE_META, VERSIONS_META,
    VERSION_META,
};
use crate::paths::{join_path, spec_join, spec_strip_prefix, spec_url_of, strip_prefix_dir, url_of};
use crate::rule::Rule;
use crate::snapshot::{stage_count, Registry, SnapshotManager, SnapshotStage};
use crate::value::{
    arr_view, clone_string, lemma_arr_view, obj_lookup, obj_upsert, Value, ValueView,
};
use vstd::prelude::*;

verus! {

/// One per-path task: the compiler clone that drives it, its private
/// local scope, and its progress flags.
pub struct Task<C> {
    pub compiler: C,
    pub local: Value,
    pub source: String,
    pub waiting: bool,
    pub done: bool,
    pub failed: bool,
}

/// One rule being executed: its tasks, their snapshot stages, and the
/// result array of completed tasks, in completion order.
pub struct RuleExec<C> {
    pub name: String,
    pub version: String,
    pub tasks: Vec<Task<C>>,
    pub manager: SnapshotManager,
    pub results: Vec<Value>,
}

pub open spec fn task_wf<C>(t: Task<C>) -> bool {
    t.local@ is Obj
}

pub open spec fn rule_exec_wf<C>(r: RuleExec<C>) -> bool {
    &&& r.manager.stages@.len() == r.tasks@.len()
    &&& forall|i: int| 0 <= i < r.tasks@.len() ==> task_wf(#[trigger] r.tasks@[i])
}

/// Whether the barrier lets task `i` proceed: every sibling has taken
/// at least as many snapshots, or will never take another.
pub open spec fn barrier_ok<C>(r: RuleExec<C>, i: int) -> bool {
    forall|j: int|
        0 <= j < r.tasks@.len() ==> ((#[trigger] r.tasks@[j]).done || r.tasks@[j].failed
            || stage_count(r.manager.stages@, j) >= stage_count(r.manager.stages@, i))
}

/// Whether task `i` may receive its next compiler step now.
pub open spec fn task_runnable<C>(r: RuleExec<C>, i: int) -> bool {
    &&& !r.tasks@[i].done
    &&& !r.tasks@[i].failed
    &&& (!r.tasks@[i].waiting || barrier_ok(r, i))
}

/// Law: the intra-rule barrier.  A task that suspended at `WaitStage`
/// does not receive its next compiler step while any sibling task that
/// can still make progress has taken fewer snapshots than it has.
pub proof fn law_intra_rule_barrier<C>(r: RuleExec<C>, i: int, j: int)
    requires
        0 <= i < r.tasks@.len(),
        0 <= j < r.tasks@.len(),
        r.tasks@[i].waiting,
        !r.tasks@[j].done,
        !r.tasks@[j].failed,
        stage_count(r.manager.stages@, j) < stage_count(r.manager.stages@, i),
    ensures
        !task_runnable(r, i),
{
}

/// Evaluate the barrier for task `i`.
#[verifier::loop_isolation(false)]
fn check_barrier<C: Compiler>(r: &RuleExec<C>, i: usize) -> (b: bool)
    requires
        i < r.tasks@.len(),
        rule_exec_wf(*r),
    ensures
        b == barrier_ok(*r, i as int),
{
    let mine = r.manager.stages[i].metas.len();
    let mut j: usize = 0;
    while j < r.tasks.len()
        invariant
            j <= r.tasks@.len(),
            forall|k: int|
                0 <= k < j ==> ((#[trigger] r.tasks@[k]).done || r.tasks@[k].failed || stage_count(
                    r.manager.stages@,
                    k,
                ) >= stage_count(r.manager.stages@, i as int)),
        decreases r.tasks@.len() - j,
    {
        let t = &r.tasks[j];
        if !t.done && !t.failed {
            if r.manager.stages[j].metas.len() < mine {
                proof {
                    assert(stage_count(r.manager.stages@, j as int) < stage_count(
                        r.manager.stages@,
                        i as int,
                    ));
                }
                return false;
            }
        }
        j = j + 1;
    }
    true
}

/// Whether task `i` may receive its next compiler step now.
pub fn runnable<C: Compiler>(r: &RuleExec<C>, i: usize) -> (b: bool)
    requires
        i < r.tasks@.len(),
        rule_exec_wf(*r),
    ensures
        b == task_runnable(*r, i as int),
{
    let t = &r.tasks[i];
    if t.done || t.failed {
        return false;
    }
    if !t.waiting {
        return true;
    }
    check_barrier(r, i)
}

/// A copy of a value vector, element views preserved.
#[verifier::loop_isolation(false)]
pub fn duplicate_values(v: &Vec<Value>) -> (r: Vec<Value>)
    ensures
        r@.len() == v@.len(),
        arr_view(r@) == arr_view(v@),
{
    let mut out: Vec<Value> = Vec::new();
    let mut i: usize = 0;
    while i < v.len()
        invariant
            i <= v@.len(),
            out@.len() == i,
            forall|j: int| 0 <= j < i ==> crate::value::value_view(#[trigger] out@[j])
                == crate::value::value_view(v@[j]),
        decreases v@.len() - i,
    {
        out.push(v[i].duplicate());
        i = i + 1;
    }
    proof {
        assert(arr_view(out@) =~= arr_view(v@));
    }
    out
}

/// Whether every task of the rule has completed or failed, so that
/// the rule can never take another snapshot.
#[verifier::loop_isolation(false)]
pub fn all_settled<C: Compiler>(r: &RuleExec<C>) -> (b: bool)
    ensures
        b == forall|j: int|
            0 <= j < r.tasks@.len() ==> ((#[trigger] r.tasks@[j]).done || r.tasks@[j].failed),
{
    let mut j: usize = 0;
    while j < r.tasks.len()
        invariant
            j <= r.tasks@.len(),
            forall|k: int| 0 <= k < j ==> ((#[trigger] r.tasks@[k]).done || r.tasks@[k].failed),
        decreases r.tasks@.len() - j,
    {
        let t = &r.tasks[j];
        if !t.done && !t.failed {
            return false;
        }
        j = j + 1;
    }
    true
}

/// Fold one compiler outcome back into the engine.  An error aborts
/// only its own task and is handed up as it is.  On an outcome
/// whose returned scopes are both objects, the task absorbs the
/// returned local scope and the engine the returned global scope; a
/// snapshot of the new local scope is recorded when the outcome is
/// `WaitStage` or when the compiler requested one; and on `Completed`
/// the new local metadata is recorded in the version ledger under
/// (version, source), appended to the rule's result array, and the
/// array is published in the global scope under the rule's name.  An
/// outcome whose scopes are not objects fails the task with a metadata
/// error and folds nothing.
#[verifier::loop_isolation(false)]
pub fn fold_outcome<C: Compiler>(
    rule: &mut RuleExec<C>,
    i: usize,
    global: &mut Value,
    res: Result<CompileStep, Error>,
) -> (r: Option<Error>)
    requires
        i < old(rule).tasks@.len(),
        rule_exec_wf(*old(rule)),
        !old(rule).tasks@[i as int].done,
        !old(rule).tasks@[i as int].failed,
        old(global)@ is Obj,
    ensures
        final(global)@ is Obj,
        rule_exec_wf(*final(rule)),
        final(rule).tasks@.len() == old(rule).tasks@.len(),
        final(rule).name == old(rule).name,
        final(rule).version == old(rule).version,
        forall|j: int|
            0 <= j < old(rule).tasks@.len() && j != i
                ==> final(rule).tasks@[j] == old(rule).tasks@[j],
        forall|j: int|
            0 <= j < old(rule).manager.stages@.len() && j != i
                ==> final(rule).manager.stages@[j] == old(rule).manager.stages@[j],
        stage_count(final(rule).manager.stages@, i as int) >= stage_count(
            old(rule).manager.stages@,
            i as int,
        ),
        final(rule).tasks@[i as int].source@ == old(rule).tasks@[i as int].source@,
        (r is Some) == final(rule).tasks@[i as int].failed,
        !(final(rule).tasks@[i as int].done && final(rule).tasks@[i as int].failed),
        final(rule).results@.len() == old(rule).results@.len() + (if final(rule).tasks@[i as int].done {
            1int
        } else {
            0int
        }),
        final(rule).tasks@[i as int].done ==> match obj_lookup(
            final(global).entries(),
            old(rule).name@,
        ) {
            Some(v) => v is Arr,
            None => false,
        },
        final(rule).tasks@[i as int].done && old(rule).name@ != VERSIONS_META@
            ==> spec_ledger_has(
            final(global).entries(),
            old(rule).version@,
            old(rule).tasks@[i as int].source@,
        ),
        final(rule).tasks@[i as int].waiting ==> stage_count(
            final(rule).manager.stages@,
            i as int,
        ) == stage_count(old(rule).manager.stages@, i as int) + 1,
        res matches Err(e) ==> ({
            &&& r == Some(e)
            &&& *final(global) == *old(global)
            &&& final(rule).manager == old(rule).manager
            &&& final(rule).results == old(rule).results
            &&& final(rule).tasks@[i as int].local == old(rule).tasks@[i as int].local
        }),
        res matches Ok(step) ==> ({
            let c = step.ctx();
            if c.meta.global@ is Obj && c.meta.local@ is Obj {
                &&& r is None
                &&& final(rule).tasks@[i as int].local@ == c.meta.local@
                &&& final(rule).tasks@[i as int].waiting == (step is WaitStage)
                &&& final(rule).tasks@[i as int].done == (step is Completed)
                &&& (if c.snapshot_requested || step is WaitStage {
                    arr_view(final(rule).manager.stages@[i as int].metas@) == arr_view(
                        old(rule).manager.stages@[i as int].metas@,
                    ).push(c.meta.local@)
                } else {
                    final(rule).manager.stages@[i as int] == old(rule).manager.stages@[i as int]
                })
                &&& (if step is Completed {
                    arr_view(final(rule).results@) == arr_view(old(rule).results@).push(
                        c.meta.local@,
                    ) && final(global)@ == ValueView::Obj(
                        obj_upsert(
                            spec_ledger_record(
                                c.meta.global.entries(),
                                old(rule).version@,
                                old(rule).tasks@[i as int].source@,
                                c.meta.local@,
                            ),
                            old(rule).name@,
                            ValueView::Arr(arr_view(final(rule).results@)),
                        ),
                    )
                } else {
                    final(global)@ == c.meta.global@ && final(rule).results == old(rule).results
                })
            } else {
                &&& r matches Some(e) && e is InvalidMetadata
                &&& *final(global) == *old(global)
                &&& final(rule).manager == old(rule).manager
                &&& final(rule).results == old(rule).results
                &&& final(rule).tasks@[i as int].local == old(rule).tasks@[i as int].local
            }
        }),
{
    let ghost tasks0 = rule.tasks@;
    let ghost stages0 = rule.manager.stages@;
    let mut task = rule.tasks.remove(i);
    task.waiting = false;
    let mut out: Option<Error> = None;
    match res {
        Err(e) => {
            task.failed = true;
            out = Some(e);
        },
        Ok(step) => {
            let ghost gstep = step;
            let (kind, ctx2): (u8, Context) = match step {
                CompileStep::Completed(c) => (0u8, c),
                CompileStep::InProgress(c) => (1u8, c),
                CompileStep::WaitStage(c) => (2u8, c),
            };
            proof {
                assert((kind == 0) == (gstep is Completed));
                assert((kind == 2) == (gstep is WaitStage));
                assert(ctx2 == gstep.ctx());
            }
            let Context { meta, registry: _, config: _, snapshot_requested } = ctx2;
            let Metadata { global: new_global, local: new_local } = meta;
            let global_ok = match &new_global {
                Value::Obj(_) => true,
                _ => false,
            };
            let local_ok = match &new_local {
                Value::Obj(_) => true,
                _ => false,
            };
            if !global_ok || !local_ok {
                task.failed = true;
                out = Some(Error::InvalidMetadata);
            } else {
                *global = new_global;
                task.local = new_local;
                if snapshot_requested || kind == 2 {
                    let mut st = rule.manager.stages.remove(i);
                    let ghost metas0 = st.metas@;
                    st.push(task.local.duplicate());
                    proof {
                        assert(arr_view(st.metas@) =~= arr_view(metas0).push(
                            crate::value::value_view(task.local),
                        ));
                    }
                    rule.manager.stages.insert(i, st);
                    proof {
                        assert(rule.manager.stages@.len() == stages0.len());
                        assert forall|j: int|
                            0 <= j < stages0.len() && j != i implies rule.manager.stages@[j]
                            == stages0[j] by {
                            if j < i {
                                assert(rule.manager.stages@[j] == stages0[j]);
                            }
                        }
                    }
                }
                if kind == 2 {
                    task.waiting = true;
                }
                if kind == 0 {
                    task.done = true;
                    let ghost gmid = global.entries();
                    let ghost localv = task.local@;
                    ledger_record(
                        global,
                        rule.version.as_str(),
                        task.source.as_str(),
                        task.local.duplicate(),
                    );
                    let ghost grec = global.entries();
                    let ghost results0 = rule.results@;
                    rule.results.push(task.local.duplicate());
                    proof {
                        assert(arr_view(rule.results@) =~= arr_view(results0).push(localv));
                    }
                    let arr = Value::Arr(duplicate_values(&rule.results));
                    let ghost arrv = arr@;
                    proof {
                        lemma_arr_view(arr->Arr_0@);
                        assert(arrv == ValueView::Arr(arr_view(rule.results@)));
                    }
                    global.obj_insert(rule.name.as_str(), arr);
                    proof {
                        lemma_ledger_record(
                            gmid,
                            rule.version@,
                            task.source@,
                            localv,
                            rule.version@,
                            task.source@,
                        );
                        lemma_upsert_lookup(grec, rule.name@, arrv, rule.name@);
                        if rule.name@ != VERSIONS_META@ {
                            lemma_upsert_lookup(grec, rule.name@, arrv, VERSIONS_META@);
                        }
                    }
                }
            }
        },
    }
    rule.tasks.insert(i, task);
    proof {
        assert(rule.tasks@.len() == tasks0.len());
        assert forall|j: int| 0 <= j < tasks0.len() && j != i implies rule.tasks@[j] == tasks0[j]
            by {
            if j < i {
                assert(rule.tasks@[j] == tasks0[j]);
            }
        }
    }
    out
}

/// Run one compiler step of task `i` of `rule`: hand the compiler a
/// context made of copies of the engine's current global scope, the
/// task's local scope, the registry and the configuration, then fold
/// whatever came back with [`fold_outcome`], which fixes the exact
/// effect of every outcome.
#[verifier::loop_isolation(false)]
pub fn run_task_turn<C: Compiler>(
    rule: &mut RuleExec<C>,
    i: usize,
    global: &mut Value,
    registry: &Registry,
    config: &Config,
) -> (r: Option<Error>)
    requires
        i < old(rule).tasks@.len(),
        rule_exec_wf(*old(rule)),
        task_runnable(*old(rule), i as int),
        old(global)@ is Obj,
    ensures
        final(global)@ is Obj,
        rule_exec_wf(*final(rule)),
        final(rule).tasks@.len() == old(rule).tasks@.len(),
        final(rule).name == old(rule).name,
        final(rule).version == old(rule).version,
        forall|j: int|
            0 <= j < old(rule).tasks@.len() && j != i
                ==> final(rule).tasks@[j] == old(rule).tasks@[j],
        forall|j: int|
            0 <= j < old(rule).manager.stages@.len() && j != i
                ==> final(rule).manager.stages@[j] == old(rule).manager.stages@[j],
        stage_count(final(rule).manager.stages@, i as int) >= stage_count(
            old(rule).manager.stages@,
            i as int,
        ),
        final(rule).tasks@[i as int].source@ == old(rule).tasks@[i as int].source@,
        (r is Some) == final(rule).tasks@[i as int].failed,
        !(final(rule).tasks@[i as int].done && final(rule).tasks@[i as int].failed),
        final(rule).results@.len() == old(rule).results@.len() + (if final(rule).tasks@[i as int].done {
            1int
        } else {
            0int
        }),
        final(rule).tasks@[i as int].done ==> match obj_lookup(
            final(global).entries(),
            old(rule).name@,
        ) {
            Some(v) => v is Arr,
            None => false,
        },
        final(rule).tasks@[i as int].done && old(rule).name@ != VERSIONS_META@
            ==> spec_ledger_has(
            final(global).entries(),
            old(rule).version@,
            old(rule).tasks@[i as int].source@,
        ),
        final(rule).tasks@[i as int].waiting ==> stage_count(
            final(rule).manager.stages@,
            i as int,
        ) == stage_count(old(rule).manager.stages@, i as int) + 1,
{
    let ctx = Context {
        meta: Metadata {
            global: global.duplicate(),
            local: rule.tasks[i].local.duplicate(),
        },
        registry: registry.duplicate(),
        config: config.duplicate(),
        snapshot_requested: false,
    };
    let res = {
        let task = &mut rule.tasks[i];
        task.compiler.next_step(ctx)
    };
    fold_outcome(rule, i, global, res)
}

/// A copy of a snapshot manager, stage counts and snapshot views
/// preserved.
#[verifier::loop_isolation(false)]
pub fn duplicate_manager(m: &SnapshotManager) -> (r: SnapshotManager)
    ensures
        r.stages@.len() == m.stages@.len(),
        forall|s: int|
            0 <= s < m.stages@.len() ==> #[trigger] stage_count(r.stages@, s) == stage_count(
                m.stages@,
                s,
            ),
        forall|s: int|
            0 <= s < m.stages@.len() ==> arr_view((#[trigger] r.stages@[s]).metas@) == arr_view(
                m.stages@[s].metas@,
            ),
{
    let mut stages: Vec<SnapshotStage> = Vec::new();
    let mut s: usize = 0;
    while s < m.stages.len()
        invariant
            s <= m.stages@.len(),
            stages@.len() == s,
            forall|t: int|
                0 <= t < s ==> #[trigger] stage_count(stages@, t) == stage_count(m.stages@, t),
            forall|t: int|
                0 <= t < s ==> arr_view((#[trigger] stages@[t]).metas@) == arr_view(
                    m.stages@[t].metas@,
                ),
        decreases m.stages@.len() - s,
    {
        let metas = duplicate_values(&m.stages[s].metas);
        let ghost stages0 = stages@;
        stages.push(SnapshotStage { metas });
        proof {
            assert forall|t: int|
                0 <= t < s + 1 implies #[trigger] stage_count(stages@, t) == stage_count(
                m.stages@,
                t,
            ) && arr_view(stages@[t].metas@) == arr_view(m.stages@[t].metas@) by {
                if t < s {
                    assert(stages@[t] == stages0[t]);
                    assert(stage_count(stages0, t) == stage_count(m.stages@, t));
                    assert(arr_view(stages0[t].metas@) == arr_view(m.stages@[t].metas@));
                }
            }
        }
        s = s + 1;
    }
    SnapshotManager { stages }
}

/// The local scope every task starts from: the well-known keys for its
/// rule name, version tag, source path, derived target path, and
/// logical URL path.
pub open spec fn seeded_local<C>(
    t: Task<C>,
    name: Seq<char>,
    version: Seq<char>,
    src_dir: Seq<char>,
    target_dir: Seq<char>,
) -> bool {
    let es = t.local.entries();
    let rel = spec_strip_prefix(t.source@, src_dir);
    &&& t.local@ is Obj
    &&& obj_lookup(es, RULE_META@) == Some(ValueView::Str(name))
    &&& obj_lookup(es, VERSION_META@) == Some(ValueView::Str(version))
    &&& obj_lookup(es, SOURCE_FILE_META@) == Some(ValueView::Str(t.source@))
    &&& obj_lookup(es, TARGET_FILE_META@) == Some(ValueView::Str(spec_join(target_dir, rel)))
    &&& obj_lookup(es, PATH_META@) == Some(ValueView::Str(spec_url_of(rel)))
}

/// Build the execution state of one rule: filter the candidate paths
/// against the version ledger (recording placeholders for the kept
/// ones), and spawn one task per kept path, its local scope seeded
/// with the well-known keys.
#[verifier::loop_isolation(false)]
pub fn seed_rule<C: Compiler>(rule: &Rule<C>, paths: Vec<String>, global: &mut Value, config: &Config) -> (r:
    RuleExec<C>)
    requires
        old(global)@ is Obj,
    ensures
        final(global)@ is Obj,
        rule_exec_wf(r),
        r.name@ == rule.name@,
        r.version@ == rule.version.tag@,
        r.results@.len() == 0,
        ({
            let (kept, g1) = spec_filter_new(
                old(global).entries(),
                rule.version.tag@,
                paths_view(paths@),
            );
            &&& final(global)@ == ValueView::Obj(g1)
            &&& r.tasks@.len() == kept.len()
            &&& forall|i: int| 0 <= i < kept.len() ==> (#[trigger] r.tasks@[i]).source@ == kept[i]
        }),
        forall|i: int|
            0 <= i < r.tasks@.len() ==> seeded_local(
                #[trigger] r.tasks@[i],
                rule.name@,
                rule.version.tag@,
                config.source_dir@,
                config.target_dir@,
            ),
        forall|i: int|
            0 <= i < r.tasks@.len() ==> !(#[trigger] r.tasks@[i]).done && !r.tasks@[i].failed && !r.tasks@[i].waiting,
        forall|i: int| 0 <= i < r.tasks@.len() ==> stage_count(r.manager.stages@, i) == 0,
{
    let kept = filter_new(global, rule.version.get(), &paths);
    let mut tasks: Vec<Task<C>> = Vec::new();
    let mut manager = SnapshotManager::new();
    let mut i: usize = 0;
    let ghost keptv = paths_view(kept@);
    while i < kept.len()
        invariant
            i <= kept@.len(),
            tasks@.len() == i,
            manager.stages@.len() == i,
            forall|j: int| 0 <= j < i ==> (#[trigger] tasks@[j]).source@ == keptv[j],
            forall|j: int|
                0 <= j < i ==> seeded_local(
                    #[trigger] tasks@[j],
                    rule.name@,
                    rule.version.tag@,
                    config.source_dir@,
                    config.target_dir@,
                ),
            forall|j: int|
                0 <= j < i ==> !(#[trigger] tasks@[j]).done && !tasks@[j].failed
                    && !tasks@[j].waiting,
            forall|j: int| 0 <= j < i ==> stage_count(manager.stages@, j) == 0,
        decreases kept@.len() - i,
    {
        let source = clone_string(&kept[i]);
        let mut local = Value::empty_obj();
        local.obj_insert(RULE_META, Value::Str(clone_string(&rule.name)));
        local.obj_insert(VERSION_META, Value::Str(clone_string(&rule.version.tag)));
        local.obj_insert(SOURCE_FILE_META, Value::Str(clone_string(&source)));
        let rel = strip_prefix_dir(source.as_str(), config.source_dir.as_str());
        local.obj_insert(
            TARGET_FILE_META,
            Value::Str(join_path(config.target_dir.as_str(), rel.as_str())),
        );
        local.obj_insert(PATH_META, Value::Str(url_of(rel.as_str())));
        proof {
            lemma_seeded_lookups(
                local.entries(),
                rule.name@,
                rule.version.tag@,
                source@,
                spec_join(config.target_dir@, spec_strip_prefix(source@, config.source_dir@)),
                spec_url_of(spec_strip_prefix(source@, config.source_dir@)),
            );
        }
        let ghost tasks0 = tasks@;
        let ghost stages0 = manager.stages@;
        tasks.push(
            Task {
                compiler: rule.compiler.duplicate(),
                local,
                source,
                waiting: false,
                done: false,
                failed: false,
            },
        );
        manager.push(SnapshotStage::new());
        proof {
            assert forall|j: int| 0 <= j < i + 1 implies stage_count(manager.stages@, j) == 0 by {
                if j < i {
                    assert(manager.stages@[j] == stages0[j]);
                    assert(stage_count(stages0, j) == 0);
                }
            }
            assert forall|j: int| 0 <= j < i + 1 implies (#[trigger] tasks@[j]).source@ == keptv[j]
                && seeded_local(
                tasks@[j],
                rule.name@,
                rule.version.tag@,
                config.source_dir@,
                config.target_dir@,
            ) && !tasks@[j].done && !tasks@[j].failed && !tasks@[j].waiting by {
                if j < i {
                    assert(tasks@[j] == tasks0[j]);
                    assert((#[trigger] tasks0[j]).source@ == keptv[j]);
                    assert(seeded_local(
                        tasks0[j],
                        rule.name@,
                        rule.version.tag@,
                        config.source_dir@,
                        config.target_dir@,
                    ));
                }
            }
        }
        i = i + 1;
    }
    RuleExec {
        name: clone_string(&rule.name),
        version: clone_string(&rule.version.tag),
        tasks,
        manager,
        results: Vec::new(),
    }
}

/// The five well-known keys written in order are all retrievable.
proof fn lemma_seeded_lookups(
    es: Seq<(Seq<char>, ValueView)>,
    name: Seq<char>,
    version: Seq<char>,
    source: Seq<char>,
    target: Seq<char>,
    url: Seq<char>,
)
    requires
        ({
            let e0 = Seq::<(Seq<char>, ValueView)>::empty();
            let e1 = crate::value::obj_upsert(e0, RULE_META@, ValueView::Str(name));
            let e2 = crate::value::obj_upsert(e1, VERSION_META@, ValueView::Str(version));
            let e3 = crate::value::obj_upsert(e2, SOURCE_FILE_META@, ValueView::Str(source));
            let e4 = crate::value::obj_upsert(e3, TARGET_FILE_META@, ValueView::Str(target));
            es == crate::value::obj_upsert(e4, PATH_META@, ValueView::Str(url))
        }),
    ensures
        obj_lookup(es, RULE_META@) == Some(ValueView::Str(name)),
        obj_lookup(es, VERSION_META@) == Some(ValueView::Str(version)),
        obj_lookup(es, SOURCE_FILE_META@) == Some(ValueView::Str(source)),
        obj_lookup(es, TARGET_FILE_META@) == Some(ValueView::Str(target)),
        obj_lookup(es, PATH_META@) == Some(ValueView::Str(url)),
{
    reveal_strlit("_rule");
    reveal_strlit("_version");
    reveal_strlit("_source");
    reveal_strlit("_target");
    reveal_strlit("_path");
    assert(RULE_META@ =~= "_rule"@);
    assert(VERSION_META@ =~= "_version"@);
    assert(SOURCE_FILE_META@ =~= "_source"@);
    assert(TARGET_FILE_META@ =~= "_target"@);
    assert(PATH_META@ =~= "_path"@);
    assert(RULE_META@.len() == 5 && VERSION_META@.len() == 8 && SOURCE_FILE_META@.len() == 7
        && TARGET_FILE_META@.len() == 7 && PATH_META@.len() == 5);
    assert(RULE_META@ != VERSION_META@ && RULE_META@ != SOURCE_FILE_META@ && RULE_META@
        != TARGET_FILE_META@);
    assert(RULE_META@ != PATH_META@) by {
        assert(RULE_META@[1] == 'r');
        assert(PATH_META@[1] == 'p');
    }
    assert(VERSION_META@ != SOURCE_FILE_META@ && VERSION_META@ != TARGET_FILE_META@ && VERSION_META@
        != PATH_META@);
    assert(SOURCE_FILE_META@ != TARGET_FILE_META@) by {
        assert(SOURCE_FILE_META@[1] == 's');
        assert(TARGET_FILE_META@[1] == 't');
    }
    assert(SOURCE_FILE_META@ != PATH_META@ && TARGET_FILE_META@ != PATH_META@);
    let e0 = Seq::<(Seq<char>, ValueView)>::empty();
    let e1 = crate::value::obj_upsert(e0, RULE_META@, ValueView::Str(name));
    let e2 = crate::value::obj_upsert(e1, VERSION_META@, ValueView::Str(version));
    let e3 = crate::value::obj_upsert(e2, SOURCE_FILE_META@, ValueView::Str(source));
    let e4 = crate::value::obj_upsert(e3, TARGET_FILE_META@, ValueView::Str(target));
    crate::ledger::lemma_upsert_lookup(e0, RULE_META@, ValueView::Str(name), RULE_META@);
    crate::ledger::lemma_upsert_lookup(e1, VERSION_META@, ValueView::Str(version), RULE_META@);
    crate::ledger::lemma_upsert_lookup(e1, VERSION_META@, ValueView::Str(version), VERSION_META@);
    crate::ledger::lemma_upsert_lookup(e2, SOURCE_FILE_META@, ValueView::Str(source), RULE_META@);
    crate::ledger::lemma_upsert_lookup(
        e2,
        SOURCE_FILE_META@,
        ValueView::Str(source),
        VERSION_META@,
    );
    crate::ledger::lemma_upsert_lookup(
        e2,
        SOURCE_FILE_META@,
        ValueView::Str(source),
        SOURCE_FILE_META@,
    );
    crate::ledger::lemma_upsert_lookup(e3, TARGET_FILE_META@, ValueView::Str(target), RULE_META@);
    crate::ledger::lemma_upsert_lookup(
        e3,
        TARGET_FILE_META@,
        ValueView::Str(target),
        VERSION_META@,
    );
    crate::ledger::lemma_upsert_lookup(
        e3,
        TARGET_FILE_META@,
        ValueView::Str(target),
        SOURCE_FILE_META@,
    );
    crate::ledger::lemma_upsert_lookup(
        e3,
        TARGET_FILE_META@,
        ValueView::Str(target),
        TARGET_FILE_META@,
    );
    crate::ledger::lemma_upsert_lookup(e4, PATH_META@, ValueView::Str(url), RULE_META@);
    crate::ledger::lemma_upsert_lookup(e4, PATH_META@, ValueView::Str(url), VERSION_META@);
    crate::ledger::lemma_upsert_lookup(e4, PATH_META@, ValueView::Str(url), SOURCE_FILE_META@);
    crate::ledger::lemma_upsert_lookup(e4, PATH_META@, ValueView::Str(url), TARGET_FILE_META@);
    crate::ledger::lemma_upsert_lookup(e4, PATH_META@, ValueView::Str(url), PATH_META@);
}

/// The number of completed tasks.
pub open spec fn done_count<C>(tasks: Seq<Task<C>>) -> int
    decreases tasks.len(),
{
    if tasks.len() == 0 {
        0
    } else {
        done_count(tasks.drop_last()) + if tasks.last().done {
            1int
        } else {
            0int
        }
    }
}

pub proof fn lemma_done_count_bounds<C>(tasks: Seq<Task<C>>)
    ensures
        0 <= done_count(tasks) <= tasks.len(),
        (forall|j: int| 0 <= j < tasks.len() ==> !(#[trigger] tasks[j]).done) ==> done_count(tasks)
            == 0,
        (forall|j: int| 0 <= j < tasks.len() ==> (#[trigger] tasks[j]).done) ==> done_count(tasks)
            == tasks.len(),
    decreases tasks.len(),
{
    if tasks.len() > 0 {
        lemma_done_count_bounds(tasks.drop_last());
        assert forall|j: int| 0 <= j < tasks.drop_last().len() implies tasks.drop_last()[j]
            == tasks[j] by {}
    }
}

/// Replacing one task changes the completed count by the difference of
/// the two done flags.
pub proof fn lemma_done_count_update<C>(tasks: Seq<Task<C>>, i: int, t: Task<C>)
    requires
        0 <= i < tasks.len(),
    ensures
        done_count(tasks.update(i, t)) == done_count(tasks) + (if t.done {
            1int
        } else {
            0int
        }) - (if tasks[i].done {
            1int
        } else {
            0int
        }),
    decreases tasks.len(),
{
    let u = tasks.update(i, t);
    if i == tasks.len() - 1 {
        assert(u.drop_last() =~= tasks.drop_last());
        assert(u.last() == t);
    } else {
        assert(u.drop_last() =~= tasks.drop_last().update(i, t));
        assert(u.last() == tasks.last());
        lemma_done_count_update(tasks.drop_last(), i, t);
    }
}

/// Resolve, filter and seed every rule of one step, and register each
/// rule's snapshot manager so that rules of this and later steps can
/// wait on it.  A rule without exactly one matching policy, or with a
/// failing glob, rejects the whole step as a rule error before any
/// task exists.
#[verifier::loop_isolation(false)]
pub fn seed_step<C: Compiler>(
    global: &mut Value,
    registry: &mut Registry,
    config: &Config,
    step: &Vec<Rule<C>>,
) -> (r: Result<Vec<RuleExec<C>>, Error>)
    requires
        old(global)@ is Obj,
    ensures
        final(global)@ is Obj,
        r matches Err(e) ==> e is InvalidRule,
        (exists|k: int| 0 <= k < step@.len() && !crate::rule::policy_ok(#[trigger] step@[k]))
            ==> r is Err,
        r matches Ok(rules) ==> rules@.len() == step@.len(),
        r matches Ok(rules) ==> forall|k: int|
            0 <= k < step@.len() ==> rule_exec_wf(#[trigger] rules@[k]),
        r matches Ok(rules) ==> forall|k: int|
            0 <= k < step@.len() ==> (#[trigger] rules@[k]).name@ == step@[k].name@,
        r matches Ok(rules) ==> forall|k: int|
            0 <= k < step@.len() ==> (#[trigger] rules@[k]).version@ == step@[k].version.tag@,
        r matches Ok(rules) ==> forall|k: int|
            0 <= k < step@.len() ==> (#[trigger] rules@[k]).results@.len() == 0,
        r matches Ok(rules) ==> forall|k: int, t: int|
            0 <= k < step@.len() && 0 <= t < rules@[k].tasks@.len() ==> (!(
            #[trigger] rules@[k].tasks@[t]).done && !rules@[k].tasks@[t].failed
                && !rules@[k].tasks@[t].waiting),
        r matches Ok(rules) ==> forall|k: int, t: int|
            0 <= k < step@.len() && 0 <= t < rules@[k].tasks@.len() ==> seeded_local(
                #[trigger] rules@[k].tasks@[t],
                step@[k].name@,
                step@[k].version.tag@,
                config.source_dir@,
                config.target_dir@,
            ),
        r matches Ok(rules) ==> forall|k: int|
            0 <= k < step@.len() ==> crate::snapshot::reg_has(
                final(registry).rules@,
                (#[trigger] rules@[k]).name@,
            ),
{
    let mut rules: Vec<RuleExec<C>> = Vec::new();
    let mut k: usize = 0;
    while k < step.len()
        invariant
            k <= step@.len(),
            global@ is Obj,
            rules@.len() == k,
            forall|j: int| 0 <= j < k ==> rule_exec_wf(#[trigger] rules@[j]),
            forall|j: int| 0 <= j < k ==> (#[trigger] rules@[j]).name@ == step@[j].name@,
            forall|j: int| 0 <= j < k ==> (#[trigger] rules@[j]).version@
                == step@[j].version.tag@,
            forall|j: int| 0 <= j < k ==> (#[trigger] rules@[j]).results@.len() == 0,
            forall|j: int, t: int|
                0 <= j < k && 0 <= t < rules@[j].tasks@.len() ==> (!(
                #[trigger] rules@[j].tasks@[t]).done && !rules@[j].tasks@[t].failed
                    && !rules@[j].tasks@[t].waiting),
            forall|j: int, t: int|
                0 <= j < k && 0 <= t < rules@[j].tasks@.len() ==> seeded_local(
                    #[trigger] rules@[j].tasks@[t],
                    step@[j].name@,
                    step@[j].version.tag@,
                    config.source_dir@,
                    config.target_dir@,
                ),
            forall|j: int|
                0 <= j < k ==> crate::snapshot::reg_has(
                    registry.rules@,
                    (#[trigger] rules@[j]).name@,
                ),
            forall|j: int| 0 <= j < k ==> crate::rule::policy_ok(#[trigger] step@[j]),
        decreases step@.len() - k,
    {
        let paths = match step[k].resolve_paths(config) {
            Ok(p) => p,
            Err(e) => {
                return Err(e);
            },
        };
        let re = seed_rule(&step[k], paths, global, config);
        let mgr = duplicate_manager(&re.manager);
        let ghost regpre = registry.rules@;
        registry.register(re.name.as_str(), mgr);
        let ghost rules0 = rules@;
        let ghost reg0 = registry.rules@;
        rules.push(re);
        proof {
            assert forall|j: int|
                0 <= j < k + 1 implies rule_exec_wf(#[trigger] rules@[j]) && (rules@[j]).name@
                == step@[j].name@ && rules@[j].version@ == step@[j].version.tag@
                && rules@[j].results@.len() == 0 by {
                if j < k {
                    assert(rules@[j] == rules0[j]);
                    assert(rule_exec_wf(rules0[j]));
                    assert((#[trigger] rules0[j]).name@ == step@[j].name@);
                }
            }
            assert forall|j: int, t: int|
                0 <= j < k + 1 && 0 <= t < rules@[j].tasks@.len() implies (!(
            #[trigger] rules@[j].tasks@[t]).done && !rules@[j].tasks@[t].failed
                && !rules@[j].tasks@[t].waiting && seeded_local(
                rules@[j].tasks@[t],
                step@[j].name@,
                step@[j].version.tag@,
                config.source_dir@,
                config.target_dir@,
            )) by {
                if j < k {
                    assert(rules@[j] == rules0[j]);
                    assert(!(#[trigger] rules0[j].tasks@[t]).done && !rules0[j].tasks@[t].failed
                        && !rules0[j].tasks@[t].waiting);
                    assert(seeded_local(
                        rules0[j].tasks@[t],
                        step@[j].name@,
                        step@[j].version.tag@,
                        config.source_dir@,
                        config.target_dir@,
                    ));
                }
            }
            assert forall|j: int|
                0 <= j < k + 1 implies crate::snapshot::reg_has(
                registry.rules@,
                (#[trigger] rules@[j]).name@,
            ) by {
                crate::snapshot::lemma_reg_index(registry.rules@, rules@[j].name@);
                if j < k {
                    assert(rules@[j] == rules0[j]);
                    if rules@[j].name@ == rules@[k as int].name@ {
                        assert(crate::snapshot::reg_has(registry.rules@, rules@[j].name@));
                    } else {
                        assert(crate::snapshot::reg_has(regpre, rules0[j].name@));
                        crate::snapshot::lemma_reg_index(regpre, rules@[j].name@);
                        let ix = crate::snapshot::reg_index(regpre, rules@[j].name@);
                        assert(regpre[ix].name@ == rules@[j].name@);
                        assert(registry.rules@[ix] == regpre[ix]);
                        let ir = crate::snapshot::reg_index(registry.rules@, rules@[j].name@);
                        if ir == registry.rules@.len() {
                            assert(registry.rules@[ix].name@ != rules@[j].name@);
                        }
                    }
                }
            }
        }
        k = k + 1;
    }
    Ok(rules)
}

/// Drive every task of every rule round-robin until none can move:
/// each round steps every task the barrier admits, and a sweep that
/// steps nothing ends the drive.  On a clean drive every task has
/// completed and the result arrays hold one element per task; the
/// first failure is reported, and a task that can no longer move
/// without having completed is a stall.
#[verifier::loop_isolation(false)]
pub fn drive_step<C: Compiler>(
    rules: &mut Vec<RuleExec<C>>,
    global: &mut Value,
    registry: &mut Registry,
    config: &Config,
) -> (r: Option<Error>)
    requires
        old(global)@ is Obj,
        forall|k: int| 0 <= k < old(rules)@.len() ==> rule_exec_wf(#[trigger] old(rules)@[k]),
        forall|k: int|
            0 <= k < old(rules)@.len() ==> (#[trigger] old(rules)@[k]).results@.len()
                == done_count(old(rules)@[k].tasks@),
        forall|k: int, t: int|
            0 <= k < old(rules)@.len() && 0 <= t < old(rules)@[k].tasks@.len() ==> !((
            #[trigger] old(rules)@[k].tasks@[t]).done && old(rules)@[k].tasks@[t].failed),
        forall|k: int, t: int|
            0 <= k < old(rules)@.len() && 0 <= t < old(rules)@[k].tasks@.len() ==> !(
            #[trigger] old(rules)@[k].tasks@[t]).failed,
    ensures
        final(global)@ is Obj,
        final(rules)@.len() == old(rules)@.len(),
        forall|k: int| 0 <= k < old(rules)@.len() ==> rule_exec_wf(#[trigger] final(rules)@[k]),
        forall|k: int|
            0 <= k < old(rules)@.len() ==> (#[trigger] final(rules)@[k]).name == old(rules)@[k].name,
        forall|k: int|
            0 <= k < old(rules)@.len() ==> (#[trigger] final(rules)@[k]).version == old(rules)@[k].version,
        forall|k: int|
            0 <= k < old(rules)@.len() ==> (#[trigger] final(rules)@[k]).tasks@.len() == old(rules)@[k].tasks@.len(),
        forall|k: int|
            0 <= k < old(rules)@.len() ==> (#[trigger] final(rules)@[k]).results@.len()
                == done_count(final(rules)@[k].tasks@),
        r is None ==> forall|k: int, t: int|
            0 <= k < final(rules)@.len() && 0 <= t < final(rules)@[k].tasks@.len() ==> ((
            #[trigger] final(rules)@[k].tasks@[t]).done && !final(rules)@[k].tasks@[t].failed),
        r is None ==> forall|k: int|
            0 <= k < final(rules)@.len() ==> (#[trigger] final(rules)@[k]).results@.len() == final(rules)@[k].tasks@.len(),
        r is Some ==> exists|k: int, t: int|
            0 <= k < final(rules)@.len() && 0 <= t < final(rules)@[k].tasks@.len() && !(
            #[trigger] final(rules)@[k].tasks@[t]).done,
{
    let ghost n0 = rules@.len();
    let mut first_err: Option<Error> = None;
    let mut made: bool = true;
    // The driver is a loop in a verified function, so its turn count
    // is bounded; the bound is far beyond any build that terminates at
    // all, and exhausting it surfaces as a stall below.
    let mut budget: u64 = u64::MAX;
    while made && budget > 0
        invariant
            global@ is Obj,
            rules@.len() == n0,
            n0 == old(rules)@.len(),
            forall|k: int| 0 <= k < n0 ==> rule_exec_wf(#[trigger] rules@[k]),
            forall|k: int| 0 <= k < n0 ==> (#[trigger] rules@[k]).name == old(rules)@[k].name,
            forall|k: int| 0 <= k < n0 ==> (#[trigger] rules@[k]).version == old(rules)@[k].version,
            forall|k: int| 0 <= k < n0 ==> (#[trigger] rules@[k]).tasks@.len() == old(rules)@[k].tasks@.len(),
            forall|k: int|
                0 <= k < n0 ==> (#[trigger] rules@[k]).results@.len() == done_count(
                    rules@[k].tasks@,
                ),
            forall|k: int, t: int|
                0 <= k < n0 && 0 <= t < rules@[k].tasks@.len() ==> !((
                #[trigger] rules@[k].tasks@[t]).done && rules@[k].tasks@[t].failed),
            first_err is None ==> forall|k: int, t: int|
                0 <= k < n0 && 0 <= t < rules@[k].tasks@.len() ==> !(
                #[trigger] rules@[k].tasks@[t]).failed,
            first_err is Some ==> exists|k: int, t: int|
                0 <= k < n0 && 0 <= t < rules@[k].tasks@.len() && (
                #[trigger] rules@[k].tasks@[t]).failed,
        decreases budget,
    {
        made = false;
        budget = budget - 1;
        let mut k: usize = 0;
        while k < rules.len()
            invariant
                k <= n0,
                global@ is Obj,
                rules@.len() == n0,
                n0 == old(rules)@.len(),
                forall|j: int| 0 <= j < n0 ==> rule_exec_wf(#[trigger] rules@[j]),
                forall|j: int| 0 <= j < n0 ==> (#[trigger] rules@[j]).name == old(rules)@[j].name,
                forall|j: int| 0 <= j < n0 ==> (#[trigger] rules@[j]).version == old(rules)@[j].version,
                forall|j: int| 0 <= j < n0 ==> (#[trigger] rules@[j]).tasks@.len() == old(rules)@[j].tasks@.len(),
                forall|j: int|
                    0 <= j < n0 ==> (#[trigger] rules@[j]).results@.len() == done_count(
                        rules@[j].tasks@,
                    ),
                forall|j: int, t: int|
                    0 <= j < n0 && 0 <= t < rules@[j].tasks@.len() ==> !((
                    #[trigger] rules@[j].tasks@[t]).done && rules@[j].tasks@[t].failed),
                first_err is None ==> forall|j: int, t: int|
                    0 <= j < n0 && 0 <= t < rules@[j].tasks@.len() ==> !(
                    #[trigger] rules@[j].tasks@[t]).failed,
                first_err is Some ==> exists|j: int, t: int|
                    0 <= j < n0 && 0 <= t < rules@[j].tasks@.len() && (
                    #[trigger] rules@[j].tasks@[t]).failed,
            decreases n0 - k,
        {
            let mut t: usize = 0;
            while t < rules[k].tasks.len()
                invariant
                    k < n0,
                    global@ is Obj,
                    rules@.len() == n0,
                    n0 == old(rules)@.len(),
                    forall|j: int| 0 <= j < n0 ==> rule_exec_wf(#[trigger] rules@[j]),
                    forall|j: int| 0 <= j < n0 ==> (#[trigger] rules@[j]).name == old(rules)@[j].name,
                    forall|j: int| 0 <= j < n0 ==> (#[trigger] rules@[j]).version == old(rules)@[j].version,
                    forall|j: int| 0 <= j < n0 ==> (#[trigger] rules@[j]).tasks@.len() == old(rules)@[j].tasks@.len(),
                    forall|j: int|
                        0 <= j < n0 ==> (#[trigger] rules@[j]).results@.len() == done_count(
                            rules@[j].tasks@,
                        ),
                    forall|j: int, t2: int|
                        0 <= j < n0 && 0 <= t2 < rules@[j].tasks@.len() ==> !((
                        #[trigger] rules@[j].tasks@[t2]).done && rules@[j].tasks@[t2].failed),
                    first_err is None ==> forall|j: int, t2: int|
                        0 <= j < n0 && 0 <= t2 < rules@[j].tasks@.len() ==> !(
                        #[trigger] rules@[j].tasks@[t2]).failed,
                    first_err is Some ==> exists|j: int, t2: int|
                        0 <= j < n0 && 0 <= t2 < rules@[j].tasks@.len() && (
                        #[trigger] rules@[j].tasks@[t2]).failed,
                decreases rules@[k as int].tasks@.len() - t,
            {
                if runnable(&rules[k], t) {
                    let ghost rules_pre = rules@;
                    let ghost rk_pre = rules@[k as int];
                    let e = run_task_turn(&mut rules[k], t, global, registry, config);
                    proof {
                        let rk_now = rules@[k as int];
                        assert(rk_now.tasks@ =~= rk_pre.tasks@.update(
                            t as int,
                            rk_now.tasks@[t as int],
                        ));
                        lemma_done_count_update(
                            rk_pre.tasks@,
                            t as int,
                            rk_now.tasks@[t as int],
                        );
                    }
                    match e {
                        Some(er) => {
                            if first_err.is_none() {
                                first_err = Some(er);
                            }
                        },
                        None => {},
                    }
                    proof {
                        if first_err is Some {
                            if e is Some {
                                assert(rules@[k as int].tasks@[t as int].failed);
                            } else {
                                let (j0, t0) = choose|j0: int, t0: int|
                                    0 <= j0 < n0 && 0 <= t0 < rules_pre[j0].tasks@.len() && (
                                    #[trigger] rules_pre[j0].tasks@[t0]).failed;
                                if j0 == k {
                                    if t0 == t {
                                        assert(!rk_pre.tasks@[t0].failed);
                                    } else {
                                        assert(rules@[k as int].tasks@[t0]
                                            == rk_pre.tasks@[t0]);
                                    }
                                } else {
                                    assert(rules@[j0] == rules_pre[j0]);
                                }
                                assert(0 <= j0 < n0 && 0 <= t0 < rules@[j0].tasks@.len() && (
                                rules@[j0].tasks@[t0]).failed);
                            }
                        }
                    }
                    let mgr = duplicate_manager(&rules[k].manager);
                    registry.register(rules[k].name.as_str(), mgr);
                    if all_settled(&rules[k]) {
                        // the rule can make no further progress: let
                        // inter-rule waiters through
                        registry.mark_finished(rules[k].name.as_str());
                    }
                    made = true;
                }
                t = t + 1;
            }
            k = k + 1;
        }
    }
    // nothing moved in the last sweep: anything not settled is stalled
    let mut k: usize = 0;
    while k < rules.len()
        invariant
            k <= n0,
            global@ is Obj,
            rules@.len() == n0,
            n0 == old(rules)@.len(),
            forall|j: int| 0 <= j < n0 ==> rule_exec_wf(#[trigger] rules@[j]),
            forall|j: int| 0 <= j < n0 ==> (#[trigger] rules@[j]).name == old(rules)@[j].name,
            forall|j: int| 0 <= j < n0 ==> (#[trigger] rules@[j]).version == old(rules)@[j].version,
            forall|j: int| 0 <= j < n0 ==> (#[trigger] rules@[j]).tasks@.len() == old(rules)@[j].tasks@.len(),
            forall|j: int|
                0 <= j < n0 ==> (#[trigger] rules@[j]).results@.len() == done_count(
                    rules@[j].tasks@,
                ),
            forall|j: int, t2: int|
                0 <= j < n0 && 0 <= t2 < rules@[j].tasks@.len() ==> !((
                #[trigger] rules@[j].tasks@[t2]).done && rules@[j].tasks@[t2].failed),
            first_err is None ==> forall|j: int, t2: int|
                0 <= j < n0 && 0 <= t2 < rules@[j].tasks@.len() ==> !(
                #[trigger] rules@[j].tasks@[t2]).failed,
            first_err is Some ==> exists|j: int, t2: int|
                0 <= j < n0 && 0 <= t2 < rules@[j].tasks@.len() && ((
                #[trigger] rules@[j].tasks@[t2]).failed || !rules@[j].tasks@[t2].done),
            first_err is None ==> forall|j: int, t2: int|
                0 <= j < k && 0 <= t2 < rules@[j].tasks@.len() ==> (
                #[trigger] rules@[j].tasks@[t2]).done,
        decreases n0 - k,
    {
        if !all_settled(&rules[k]) {
            if first_err.is_none() {
                first_err = Some(
                    Error::User {
                        message: "the step stalled before its tasks finished".to_owned(),
                    },
                );
            }
        }
        proof {
            if first_err is None {
                assert(forall|t2: int|
                    0 <= t2 < rules@[k as int].tasks@.len() ==> ((
                    #[trigger] rules@[k as int].tasks@[t2]).done
                        || rules@[k as int].tasks@[t2].failed));
            }
        }
        k = k + 1;
    }
    proof {
        if first_err is None {
            assert forall|k2: int|
                0 <= k2 < n0 implies (#[trigger] rules@[k2]).results@.len()
                == rules@[k2].tasks@.len() by {
                lemma_done_count_bounds(rules@[k2].tasks@);
            }
        }
    }
    first_err
}

/// Publish every rule's result array into the global scope under the
/// rule's name and mark the rule finished in the registry.  Keys that
/// are no rule's name keep their entries; where two rules of the step
/// share a name the later one's array stands, as with any repeated
/// global write.
#[verifier::loop_isolation(false)]
pub fn publish_step<C: Compiler>(
    rules: &Vec<RuleExec<C>>,
    global: &mut Value,
    registry: &mut Registry,
)
    requires
        old(global)@ is Obj,
    ensures
        final(global)@ is Obj,
        forall|key: Seq<char>|
            (forall|k: int| 0 <= k < rules@.len() ==> (#[trigger] rules@[k]).name@ != key)
                ==> #[trigger] obj_lookup(final(global).entries(), key) == obj_lookup(
                old(global).entries(),
                key,
            ),
        forall|k: int|
            0 <= k < rules@.len() && (forall|j: int|
                k < j < rules@.len() ==> (#[trigger] rules@[j]).name@ != rules@[k].name@)
                ==> #[trigger] obj_lookup(final(global).entries(), rules@[k].name@) == Some(
                ValueView::Arr(arr_view(rules@[k].results@)),
            ),
        forall|k: int|
            0 <= k < rules@.len() ==> match obj_lookup(
                final(global).entries(),
                (#[trigger] rules@[k]).name@,
            ) {
                Some(v) => v is Arr,
                None => false,
            },
        forall|k: int|
            0 <= k < rules@.len() ==> crate::snapshot::reg_has(
                final(registry).rules@,
                (#[trigger] rules@[k]).name@,
            ),
        forall|k: int|
            0 <= k < rules@.len() ==> final(registry).rules@[crate::snapshot::reg_index(
                final(registry).rules@,
                (#[trigger] rules@[k]).name@,
            )].finished,
{
    let mut k: usize = 0;
    while k < rules.len()
        invariant
            k <= rules@.len(),
            global@ is Obj,
            forall|key: Seq<char>|
                (forall|j: int| 0 <= j < k ==> (#[trigger] rules@[j]).name@ != key)
                    ==> #[trigger] obj_lookup(global.entries(), key) == obj_lookup(
                    old(global).entries(),
                    key,
                ),
            forall|j: int|
                0 <= j < k && (forall|l: int|
                    j < l < k ==> (#[trigger] rules@[l]).name@ != rules@[j].name@)
                    ==> #[trigger] obj_lookup(global.entries(), rules@[j].name@) == Some(
                    ValueView::Arr(arr_view(rules@[j].results@)),
                ),
            forall|j: int|
                0 <= j < k ==> match obj_lookup(
                    global.entries(),
                    (#[trigger] rules@[j]).name@,
                ) {
                    Some(v) => v is Arr,
                    None => false,
                },
            forall|j: int|
                0 <= j < k ==> crate::snapshot::reg_has(
                    registry.rules@,
                    (#[trigger] rules@[j]).name@,
                ),
            forall|j: int|
                0 <= j < k ==> registry.rules@[crate::snapshot::reg_index(
                    registry.rules@,
                    (#[trigger] rules@[j]).name@,
                )].finished,
        decreases rules@.len() - k,
    {
        let ghost g0 = global.entries();
        let arr = Value::Arr(duplicate_values(&rules[k].results));
        let ghost arrv = arr@;
        proof {
            lemma_arr_view(arr->Arr_0@);
            assert(arrv == ValueView::Arr(arr_view(rules@[k as int].results@)));
        }
        global.obj_insert(rules[k].name.as_str(), arr);
        let ghost regpre = registry.rules@;
        let mgr = duplicate_manager(&rules[k].manager);
        registry.register(rules[k].name.as_str(), mgr);
        let ghost regmid = registry.rules@;
        registry.mark_finished(rules[k].name.as_str());
        let ghost regfin = registry.rules@;
        let ghost namek = rules@[k as int].name@;
        proof {
            crate::snapshot::lemma_reg_index(regmid, namek);
            let idxk = crate::snapshot::reg_index(regmid, namek);
            assert(crate::snapshot::reg_has(regmid, namek));
            // marking keeps every name, so every index stands
            assert forall|j2: int| 0 <= j2 < regmid.len() implies (#[trigger] regfin[j2]).name@
                == regmid[j2].name@ by {}
            assert forall|j: int|
                0 <= j < k + 1 implies crate::snapshot::reg_has(
                registry.rules@,
                (#[trigger] rules@[j]).name@,
            ) && registry.rules@[crate::snapshot::reg_index(
                registry.rules@,
                rules@[j].name@,
            )].finished by {
                let nm = rules@[j].name@;
                if nm == namek {
                    crate::snapshot::lemma_reg_index_prefix(regmid, regfin, nm);
                    assert(regfin[idxk].finished);
                } else {
                    assert(crate::snapshot::reg_has(regpre, nm));
                    crate::snapshot::lemma_reg_index(regpre, nm);
                    let ix = crate::snapshot::reg_index(regpre, nm);
                    assert(regpre[ix].finished);
                    crate::snapshot::lemma_reg_index_prefix(regpre, regmid, nm);
                    assert(regmid[ix] == regpre[ix]);
                    crate::snapshot::lemma_reg_index_prefix(regmid, regfin, nm);
                    assert(regmid[idxk].name@ == namek);
                    assert(idxk != ix);
                    assert(regfin[ix] == regmid[ix]);
                }
            }
        }
        proof {
            assert forall|key: Seq<char>|
                (forall|j: int| 0 <= j < k + 1 ==> (#[trigger] rules@[j]).name@ != key)
                    implies #[trigger] obj_lookup(global.entries(), key) == obj_lookup(
                old(global).entries(),
                key,
            ) by {
                lemma_upsert_lookup(g0, rules@[k as int].name@, arrv, key);
            }
            assert forall|j: int|
                0 <= j < k + 1 && (forall|l: int|
                    j < l < k + 1 ==> (#[trigger] rules@[l]).name@ != rules@[j].name@)
                    implies #[trigger] obj_lookup(global.entries(), rules@[j].name@) == Some(
                ValueView::Arr(arr_view(rules@[j].results@)),
            ) by {
                lemma_upsert_lookup(g0, rules@[k as int].name@, arrv, rules@[j].name@);
            }
            assert forall|j: int|
                0 <= j < k + 1 implies match obj_lookup(
                global.entries(),
                (#[trigger] rules@[j]).name@,
            ) {
                Some(v) => v is Arr,
                None => false,
            } by {
                lemma_upsert_lookup(g0, rules@[k as int].name@, arrv, rules@[j].name@);
            }
        }
        k = k + 1;
    }
}

/// Run every rule of one step to completion: seed and register the
/// rules, drive all their tasks round-robin under the barrier, and
/// publish every rule's result array.  The three stages carry the
/// exact contracts; this composition rejects a misconfigured rule
/// before any task exists and reports the drive's first failure after
/// publishing what completed.
#[verifier::loop_isolation(false)]
pub fn run_step<C: Compiler>(
    global: &mut Value,
    registry: &mut Registry,
    config: &Config,
    step: &Vec<Rule<C>>,
) -> (r: Result<(), Error>)
    requires
        old(global)@ is Obj,
    ensures
        final(global)@ is Obj,
        (exists|k: int| 0 <= k < step@.len() && !crate::rule::policy_ok(#[trigger] step@[k]))
            ==> (r matches Err(e) && e is InvalidRule),
        r is Ok ==> forall|k: int|
            0 <= k < step@.len() ==> crate::rule::policy_ok(#[trigger] step@[k]),
        r is Ok ==> forall|k: int|
            0 <= k < step@.len() ==> match obj_lookup(
                final(global).entries(),
                (#[trigger] step@[k]).name@,
            ) {
                Some(v) => v is Arr,
                None => false,
            },
        r is Ok ==> forall|k: int|
            0 <= k < step@.len() ==> crate::snapshot::reg_has(
                final(registry).rules@,
                (#[trigger] step@[k]).name@,
            ) && final(registry).rules@[crate::snapshot::reg_index(
                final(registry).rules@,
                step@[k].name@,
            )].finished,
{
    let mut rules = match seed_step(global, registry, config, step) {
        Ok(rs) => rs,
        Err(e) => {
            return Err(e);
        },
    };
    proof {
        assert forall|k: int| 0 <= k < rules@.len() implies (#[trigger] rules@[k]).results@.len()
            == done_count(rules@[k].tasks@) by {
            lemma_done_count_bounds(rules@[k].tasks@);
        }
    }
    let e = drive_step(&mut rules, global, registry, config);
    publish_step(&rules, global, registry);
    proof {
        assert forall|k: int|
            0 <= k < step@.len() implies match obj_lookup(
            global.entries(),
            (#[trigger] step@[k]).name@,
        ) {
            Some(v) => v is Arr,
            None => false,
        } by {
            assert((#[trigger] rules@[k]).name@ == step@[k].name@);
        }
        assert forall|k: int|
            0 <= k < step@.len() implies crate::snapshot::reg_has(
            registry.rules@,
            (#[trigger] step@[k]).name@,
        ) && registry.rules@[crate::snapshot::reg_index(
            registry.rules@,
            step@[k].name@,
        )].finished by {
            assert((#[trigger] rules@[k]).name@ == step@[k].name@);
        }
    }
    match e {
        Some(er) => Err(er),
        None => Ok(()),
    }
}

} // verus!
