//! Stage snapshots and the per-rule snapshot manager.
//!
//! Each task owns one [`SnapshotStage`]: an append-only sequence of
//! local-metadata snapshots; its length is the task's stage count.  A
//! rule's [`SnapshotManager`] owns the stages of all of the rule's
//! tasks and derives the rule's aggregate stage as the minimum stage
//! count over them.  The [`Registry`] maps rule names to managers so
//! that one rule can wait on another's aggregate stage.

use crate::value::{arr_view, clone_string, Value};
use vstd::prelude::*;

verus! {

/// The ordered snapshots one task has produced.  The stage count is
/// the number of snapshots.
pub struct SnapshotStage {
    pub metas: Vec<Value>,
}

impl SnapshotStage {
    pub fn new() -> (r: Self)
        ensures
            r.metas@.len() == 0,
    {
        SnapshotStage { metas: Vec::new() }
    }

    /// The number of snapshots taken so far.
    pub fn current_stage(&self) -> (r: usize)
        ensures
            r == self.metas@.len(),
    {
        self.metas.len()
    }

    /// Append one snapshot.
    pub fn push(&mut self, meta: Value)
        ensures
            final(self).metas@ == old(self).metas@.push(meta),
    {
        self.metas.push(meta);
    }

    /// The snapshots taken so far.
    pub fn metas(&self) -> (r: &Vec<Value>)
        ensures
            r == &self.metas,
    {
        &self.metas
    }
}

/// The snapshot stages of one rule's tasks.
pub struct SnapshotManager {
    pub stages: Vec<SnapshotStage>,
}

/// The stage count of the `i`-th member stage.
pub open spec fn stage_count(stages: Seq<SnapshotStage>, i: int) -> int {
    stages[i].metas@.len() as int
}

/// The minimum stage count over the member stages (0 when there are
/// none).
pub open spec fn spec_min_stage(stages: Seq<SnapshotStage>) -> int
    decreases stages.len(),
{
    if stages.len() == 0 {
        0
    } else if stages.len() == 1 {
        stage_count(stages, 0)
    } else {
        let m = spec_min_stage(stages.drop_last());
        if stage_count(stages, stages.len() - 1) < m {
            stage_count(stages, stages.len() - 1)
        } else {
            m
        }
    }
}

/// The minimum is a lower bound, and some member attains it.
pub proof fn lemma_min_stage(stages: Seq<SnapshotStage>)
    requires
        stages.len() > 0,
    ensures
        forall|i: int| 0 <= i < stages.len() ==> stage_count(stages, i) >= spec_min_stage(stages),
        exists|i: int| 0 <= i < stages.len() && stage_count(stages, i) == spec_min_stage(stages),
    decreases stages.len(),
{
    if stages.len() == 1 {
        assert(stage_count(stages, 0) == spec_min_stage(stages));
    } else {
        lemma_min_stage(stages.drop_last());
        assert forall|i: int| 0 <= i < stages.len() implies stage_count(stages, i)
            >= spec_min_stage(stages) by {
            if i < stages.len() - 1 {
                assert(stages.drop_last()[i] == stages[i]);
                assert(stage_count(stages.drop_last(), i) >= spec_min_stage(stages.drop_last()));
            }
        }
        let w = choose|i: int|
            0 <= i < stages.drop_last().len() && stage_count(stages.drop_last(), i)
                == spec_min_stage(stages.drop_last());
        assert(stages.drop_last()[w] == stages[w]);
        if stage_count(stages, stages.len() - 1) < spec_min_stage(stages.drop_last()) {
            assert(stage_count(stages, stages.len() - 1) == spec_min_stage(stages));
        } else {
            assert(stage_count(stages, w) == spec_min_stage(stages));
        }
    }
}

impl SnapshotManager {
    pub fn new() -> (r: Self)
        ensures
            r.stages@.len() == 0,
    {
        SnapshotManager { stages: Vec::new() }
    }

    /// Register one more task's snapshot stage.
    pub fn push(&mut self, stage: SnapshotStage)
        ensures
            final(self).stages@ == old(self).stages@.push(stage),
    {
        self.stages.push(stage);
    }

    /// The aggregate stage: the minimum stage count over all member
    /// stages, or nothing when there are none.
    #[verifier::loop_isolation(false)]
    pub fn current_stage(&self) -> (r: Option<usize>)
        ensures
            (r is None) == (self.stages@.len() == 0),
            r matches Some(m) ==> m == spec_min_stage(self.stages@),
    {
        if self.stages.len() == 0 {
            return None;
        }
        let mut m: usize = self.stages[0].metas.len();
        let mut i: usize = 1;
        while i < self.stages.len()
            invariant
                1 <= i <= self.stages@.len(),
                m == spec_min_stage(self.stages@.take(i as int)),
            decreases self.stages@.len() - i,
        {
            let c = self.stages[i].metas.len();
            proof {
                let pre = self.stages@.take(i as int);
                let now = self.stages@.take(i + 1);
                assert(now.drop_last() =~= pre);
                assert(stage_count(now, i as int) == self.stages@[i as int].metas@.len());
            }
            if c < m {
                m = c;
            }
            i = i + 1;
        }
        proof {
            assert(self.stages@.take(self.stages@.len() as int) =~= self.stages@);
        }
        Some(m)
    }

    /// Whether every member stage has reached at least `stage`
    /// snapshots.  With no member stages this holds vacuously.
    #[verifier::loop_isolation(false)]
    pub fn reached(&self, stage: usize) -> (r: bool)
        ensures
            r == forall|i: int|
                0 <= i < self.stages@.len() ==> stage_count(self.stages@, i) >= stage,
    {
        let mut i: usize = 0;
        while i < self.stages.len()
            invariant
                i <= self.stages@.len(),
                forall|j: int| 0 <= j < i ==> stage_count(self.stages@, j) >= stage,
            decreases self.stages@.len() - i,
        {
            if self.stages[i].metas.len() < stage {
                proof {
                    assert(stage_count(self.stages@, i as int) < stage);
                }
                return false;
            }
            i = i + 1;
        }
        true
    }

    /// One snapshot per task from the latest aggregate stage: the
    /// `(m-1)`-th snapshot of each member, where `m` is the aggregate
    /// stage, available once every member has taken at least one.
    #[verifier::loop_isolation(false)]
    pub fn metadata(&self) -> (r: Option<Vec<Value>>)
        ensures
            match r {
                Some(v) => {
                    let m = spec_min_stage(self.stages@);
                    &&& self.stages@.len() > 0
                    &&& m > 0
                    &&& v@.len() == self.stages@.len()
                    &&& (forall|i: int|
                        0 <= i < self.stages@.len() ==> arr_view(#[trigger] v@)[i] == arr_view(
                            self.stages@[i].metas@,
                        )[m - 1])
                },
                None => self.stages@.len() == 0 || spec_min_stage(self.stages@) == 0,
            },
    {
        let current = match self.current_stage() {
            Some(c) => c,
            None => {
                return None;
            },
        };
        if current == 0 {
            return None;
        }
        let ghost m = current as int;
        proof {
            lemma_min_stage(self.stages@);
        }
        let mut out: Vec<Value> = Vec::new();
        let mut i: usize = 0;
        while i < self.stages.len()
            invariant
                i <= self.stages@.len(),
                out@.len() == i,
                forall|j: int|
                    0 <= j < i ==> arr_view(out@)[j] == arr_view(self.stages@[j].metas@)[m - 1],
            decreases self.stages@.len() - i,
        {
            proof {
                assert(stage_count(self.stages@, i as int) >= m);
            }
            let stage = &self.stages[i];
            let v = stage.metas[current - 1].duplicate();
            let ghost out0 = out@;
            out.push(v);
            proof {
                assert forall|j: int| 0 <= j < i + 1 implies arr_view(out@)[j] == arr_view(
                    self.stages@[j].metas@,
                )[m - 1] by {
                    if j < i {
                        assert(out@[j] == out0[j]);
                        assert(arr_view(out0)[j] == arr_view(self.stages@[j].metas@)[m - 1]);
                    } else {
                        assert(out@[j] == v);
                        assert(arr_view(self.stages@[j].metas@)[m - 1] == crate::value::value_view(
                            self.stages@[j].metas@[m - 1],
                        ));
                    }
                }
            }
            i = i + 1;
        }
        Some(out)
    }
}

/// One registered rule: its name, the snapshot manager of its tasks,
/// and whether the rule has finished.
pub struct RuleStatus {
    pub name: String,
    pub manager: SnapshotManager,
    pub finished: bool,
}

/// Index of the first registered rule with the given name, or the
/// length when no rule has it.
pub open spec fn reg_index(rs: Seq<RuleStatus>, name: Seq<char>) -> int
    decreases rs.len(),
{
    if rs.len() == 0 {
        0
    } else if rs[0].name@ == name {
        0
    } else {
        1 + reg_index(rs.drop_first(), name)
    }
}

pub open spec fn reg_has(rs: Seq<RuleStatus>, name: Seq<char>) -> bool {
    reg_index(rs, name) < rs.len()
}

pub proof fn lemma_reg_index(rs: Seq<RuleStatus>, name: Seq<char>)
    ensures
        0 <= reg_index(rs, name) <= rs.len(),
        reg_index(rs, name) < rs.len() ==> rs[reg_index(rs, name)].name@ == name,
        forall|j: int| 0 <= j < reg_index(rs, name) ==> rs[j].name@ != name,
    decreases rs.len(),
{
    if rs.len() != 0 && rs[0].name@ != name {
        lemma_reg_index(rs.drop_first(), name);
        assert forall|j: int| 0 <= j < reg_index(rs, name) implies rs[j].name@ != name by {
            if j > 0 {
                assert(rs.drop_first()[j - 1] == rs[j]);
            }
        }
    }
}

/// A registered name keeps its index while the entries it can see
/// keep their names, whatever is appended behind them.
pub proof fn lemma_reg_index_prefix(p: Seq<RuleStatus>, q: Seq<RuleStatus>, nm: Seq<char>)
    requires
        p.len() <= q.len(),
        forall|j: int| 0 <= j < p.len() ==> (#[trigger] q[j]).name@ == p[j].name@,
        reg_has(p, nm),
    ensures
        reg_index(q, nm) == reg_index(p, nm),
    decreases p.len(),
{
    lemma_reg_index(p, nm);
    if p[0].name@ == nm {
    } else {
        assert forall|j: int| 0 <= j < p.drop_first().len() implies (
        #[trigger] q.drop_first()[j]).name@ == p.drop_first()[j].name@ by {
            assert(q.drop_first()[j] == q[j + 1]);
            assert(p.drop_first()[j] == p[j + 1]);
        }
        lemma_reg_index_prefix(p.drop_first(), q.drop_first(), nm);
    }
}

/// The registry of rules that have begun executing, keyed by rule
/// name.
pub struct Registry {
    pub rules: Vec<RuleStatus>,
}

impl Registry {
    pub fn new() -> (r: Self)
        ensures
            r.rules@.len() == 0,
    {
        Registry { rules: Vec::new() }
    }

    /// The status registered under `name`, if any.
    #[verifier::loop_isolation(false)]
    pub fn find(&self, name: &str) -> (r: Option<&RuleStatus>)
        ensures
            reg_has(self.rules@, name@) ==> (r matches Some(p) && p == &self.rules@[reg_index(
                self.rules@,
                name@,
            )]),
            !reg_has(self.rules@, name@) ==> r is None,
    {
        proof {
            lemma_reg_index(self.rules@, name@);
        }
        let mut i: usize = 0;
        while i < self.rules.len()
            invariant
                i <= self.rules@.len(),
                forall|j: int| 0 <= j < i ==> self.rules@[j].name@ != name@,
            decreases self.rules@.len() - i,
        {
            if crate::value::compare_str(&self.rules[i].name, name) {
                proof {
                    assert(reg_index(self.rules@, name@) == i) by {
                        let ix = reg_index(self.rules@, name@);
                        if ix < i {
                            assert(self.rules@[ix].name@ != name@);
                            assert(self.rules@[ix].name@ == name@);
                        }
                        if ix > i {
                            assert(self.rules@[i as int].name@ != name@);
                        }
                    }
                }
                return Some(&self.rules[i]);
            }
            i = i + 1;
        }
        proof {
            assert(reg_index(self.rules@, name@) == self.rules@.len()) by {
                let ix = reg_index(self.rules@, name@);
                if ix < self.rules@.len() {
                    assert(self.rules@[ix].name@ == name@);
                }
            }
        }
        None
    }

    /// Register a rule's manager under its name, replacing any earlier
    /// registration of the same name.
    #[verifier::loop_isolation(false)]
    pub fn register(&mut self, name: &str, manager: SnapshotManager)
        ensures
            reg_has(final(self).rules@, name@),
            ({
                let i = reg_index(final(self).rules@, name@);
                &&& final(self).rules@[i].name@ == name@
                &&& final(self).rules@[i].manager == manager
                &&& final(self).rules@[i].finished == false
            }),
            forall|j: int|
                0 <= j < final(self).rules@.len() && #[trigger] final(self).rules@[j].name@ != name@
                    ==> 0 <= j < old(self).rules@.len() && final(self).rules@[j] == old(
                    self,
                ).rules@[j],
            forall|j: int|
                0 <= j < old(self).rules@.len() && (#[trigger] old(self).rules@[j]).name@ != name@
                    ==> j < final(self).rules@.len() && final(self).rules@[j] == old(
                    self,
                ).rules@[j],
            final(self).rules@.len() == old(self).rules@.len() || final(self).rules@.len() == old(
                self,
            ).rules@.len() + 1,
            reg_has(old(self).rules@, name@) ==> ({
                &&& final(self).rules@.len() == old(self).rules@.len()
                &&& reg_index(final(self).rules@, name@) == reg_index(old(self).rules@, name@)
                &&& forall|j: int|
                    0 <= j < old(self).rules@.len() && j != reg_index(old(self).rules@, name@)
                        ==> final(self).rules@[j] == old(self).rules@[j]
            }),
            !reg_has(old(self).rules@, name@) ==> ({
                &&& final(self).rules@.len() == old(self).rules@.len() + 1
                &&& reg_index(final(self).rules@, name@) == old(self).rules@.len()
                &&& forall|j: int|
                    0 <= j < old(self).rules@.len() ==> final(self).rules@[j] == old(
                        self,
                    ).rules@[j]
            }),
            forall|j: int|
                0 <= j < old(self).rules@.len() ==> (#[trigger] final(self).rules@[j]).name@
                    == old(self).rules@[j].name@,
    {
        proof {
            lemma_reg_index(self.rules@, name@);
        }
        let ghost rs0 = self.rules@;
        let status = RuleStatus { name: name.to_owned(), manager, finished: false };
        let mut i: usize = 0;
        while i < self.rules.len()
            invariant
                i <= self.rules@.len(),
                self.rules@ == rs0,
                forall|j: int| 0 <= j < i ==> self.rules@[j].name@ != name@,
            decreases self.rules@.len() - i,
        {
            if crate::value::compare_str(&self.rules[i].name, name) {
                proof {
                    assert(reg_index(rs0, name@) == i) by {
                        let ix = reg_index(rs0, name@);
                        if ix < i {
                            assert(rs0[ix].name@ != name@);
                            assert(rs0[ix].name@ == name@);
                        }
                        if ix > i {
                            assert(rs0[i as int].name@ != name@);
                        }
                    }
                }
                let _ = self.rules.remove(i);
                self.rules.insert(i, status);
                proof {
                    lemma_reg_index(self.rules@, name@);
                    assert(reg_index(self.rules@, name@) == i) by {
                        let ix = reg_index(self.rules@, name@);
                        if ix < i {
                            assert(self.rules@[ix].name@ != name@);
                            assert(self.rules@[ix].name@ == name@);
                        }
                        if ix > i {
                            assert(self.rules@[i as int].name@ != name@);
                        }
                    }
                }
                return ;
            }
            i = i + 1;
        }
        let ghost sname = status.name@;
        self.rules.push(status);
        proof {
            lemma_reg_index(self.rules@, name@);
            assert(reg_index(self.rules@, name@) == rs0.len()) by {
                let ix = reg_index(self.rules@, name@);
                assert(self.rules@[rs0.len() as int].name@ == name@);
                if ix < rs0.len() {
                    assert(self.rules@[ix] == rs0[ix]);
                    assert(rs0[ix].name@ != name@);
                    assert(self.rules@[ix].name@ == name@);
                }
                if ix > rs0.len() {
                    assert(self.rules@[rs0.len() as int].name@ != name@);
                }
            }
        }
    }

    /// Record that the named rule has finished.
    #[verifier::loop_isolation(false)]
    pub fn mark_finished(&mut self, name: &str)
        ensures
            final(self).rules@.len() == old(self).rules@.len(),
            forall|j: int|
                0 <= j < old(self).rules@.len() && old(self).rules@[j].name@ != name@
                    ==> final(self).rules@[j] == old(self).rules@[j],
            reg_has(old(self).rules@, name@) ==> {
                let i = reg_index(old(self).rules@, name@);
                &&& final(self).rules@[i].name == old(self).rules@[i].name
                &&& final(self).rules@[i].manager == old(self).rules@[i].manager
                &&& final(self).rules@[i].finished == true
                &&& forall|j: int|
                    0 <= j < old(self).rules@.len() && j != i ==> final(self).rules@[j] == old(
                        self,
                    ).rules@[j]
            },
            !reg_has(old(self).rules@, name@) ==> final(self).rules@ == old(self).rules@,
            forall|j: int|
                0 <= j < old(self).rules@.len() ==> (#[trigger] final(self).rules@[j]).name@
                    == old(self).rules@[j].name@,
    {
        proof {
            lemma_reg_index(self.rules@, name@);
        }
        let ghost rs0 = self.rules@;
        let mut i: usize = 0;
        while i < self.rules.len()
            invariant
                i <= self.rules@.len(),
                self.rules@ == rs0,
                forall|j: int| 0 <= j < i ==> self.rules@[j].name@ != name@,
            decreases self.rules@.len() - i,
        {
            if crate::value::compare_str(&self.rules[i].name, name) {
                proof {
                    assert(reg_index(rs0, name@) == i) by {
                        let ix = reg_index(rs0, name@);
                        if ix < i {
                            assert(rs0[ix].name@ != name@);
                            assert(rs0[ix].name@ == name@);
                        }
                        if ix > i {
                            assert(rs0[i as int].name@ != name@);
                        }
                    }
                }
                let (name_kept, manager) = {
                    let taken = self.rules.remove(i);
                    (taken.name, taken.manager)
                };
                self.rules.insert(i, RuleStatus { name: name_kept, manager, finished: true });
                return ;
            }
            i = i + 1;
        }
    }

    /// A copy of the registry for handing to a compiler through its
    /// context.
    #[verifier::loop_isolation(false)]
    pub fn duplicate(&self) -> (r: Self)
        ensures
            r.rules@.len() == self.rules@.len(),
            forall|j: int|
                0 <= j < self.rules@.len() ==> (#[trigger] r.rules@[j]).name@
                    == self.rules@[j].name@,
            forall|j: int|
                0 <= j < self.rules@.len() ==> (#[trigger] r.rules@[j]).finished
                    == self.rules@[j].finished,
            forall|j: int|
                0 <= j < self.rules@.len() ==> (#[trigger] r.rules@[j]).manager.stages@.len()
                    == self.rules@[j].manager.stages@.len(),
            forall|j: int, t: int|
                0 <= j < self.rules@.len() && 0 <= t < self.rules@[j].manager.stages@.len()
                    ==> #[trigger] stage_count(r.rules@[j].manager.stages@, t) == stage_count(
                    self.rules@[j].manager.stages@,
                    t,
                ),
            forall|j: int, t: int|
                0 <= j < self.rules@.len() && 0 <= t < self.rules@[j].manager.stages@.len()
                    ==> #[trigger] arr_view(r.rules@[j].manager.stages@[t].metas@) == arr_view(
                    self.rules@[j].manager.stages@[t].metas@,
                ),
    {
        let mut out: Vec<RuleStatus> = Vec::new();
        let mut i: usize = 0;
        while i < self.rules.len()
            invariant
                i <= self.rules@.len(),
                out@.len() == i,
                forall|j: int|
                    0 <= j < i ==> (#[trigger] out@[j]).name@ == self.rules@[j].name@,
                forall|j: int|
                    0 <= j < i ==> (#[trigger] out@[j]).finished == self.rules@[j].finished,
                forall|j: int|
                    0 <= j < i ==> (#[trigger] out@[j]).manager.stages@.len()
                        == self.rules@[j].manager.stages@.len(),
                forall|j: int, t: int|
                    0 <= j < i && 0 <= t < self.rules@[j].manager.stages@.len()
                        ==> #[trigger] stage_count(out@[j].manager.stages@, t) == stage_count(
                        self.rules@[j].manager.stages@,
                        t,
                    ),
                forall|j: int, t: int|
                    0 <= j < i && 0 <= t < self.rules@[j].manager.stages@.len()
                        ==> #[trigger] arr_view(out@[j].manager.stages@[t].metas@) == arr_view(
                        self.rules@[j].manager.stages@[t].metas@,
                    ),
            decreases self.rules@.len() - i,
        {
            let src = &self.rules[i];
            let mut stages: Vec<SnapshotStage> = Vec::new();
            let mut s: usize = 0;
            while s < src.manager.stages.len()
                invariant
                    s <= src.manager.stages@.len(),
                    stages@.len() == s,
                    forall|t: int|
                        0 <= t < s ==> #[trigger] stage_count(stages@, t) == stage_count(
                            src.manager.stages@,
                            t,
                        ),
                    forall|t: int|
                        0 <= t < s ==> #[trigger] arr_view(stages@[t].metas@) == arr_view(
                            src.manager.stages@[t].metas@,
                        ),
                decreases src.manager.stages@.len() - s,
            {
                let st = &src.manager.stages[s];
                let mut metas: Vec<Value> = Vec::new();
                let mut t: usize = 0;
                while t < st.metas.len()
                    invariant
                        t <= st.metas@.len(),
                        metas@.len() == t,
                        forall|u: int|
                            0 <= u < t ==> crate::value::value_view(#[trigger] metas@[u])
                                == crate::value::value_view(st.metas@[u]),
                    decreases st.metas@.len() - t,
                {
                    metas.push(st.metas[t].duplicate());
                    t = t + 1;
                }
                let ghost metasv = metas@;
                let ghost stages0 = stages@;
                proof {
                    assert(arr_view(metasv) =~= arr_view(st.metas@));
                }
                stages.push(SnapshotStage { metas });
                proof {
                    assert forall|t: int|
                        0 <= t < s + 1 implies #[trigger] stage_count(stages@, t) == stage_count(
                        src.manager.stages@,
                        t,
                    ) by {
                        if t < s {
                            assert(stages@[t] == stages0[t]);
                            assert(stage_count(stages0, t) == stage_count(src.manager.stages@, t));
                        } else {
                            assert(stages@[t].metas@ == metasv);
                        }
                    }
                    assert forall|t: int|
                        0 <= t < s + 1 implies #[trigger] arr_view(stages@[t].metas@) == arr_view(
                        src.manager.stages@[t].metas@,
                    ) by {
                        if t < s {
                            assert(stages@[t] == stages0[t]);
                            assert(arr_view(stages0[t].metas@) == arr_view(
                                src.manager.stages@[t].metas@,
                            ));
                        } else {
                            assert(stages@[t].metas@ == metasv);
                        }
                    }
                }
                s = s + 1;
            }
            let ghost stagesv = stages@;
            let fresh_status = RuleStatus {
                name: clone_string(&src.name),
                manager: SnapshotManager { stages },
                finished: src.finished,
            };
            let ghost fs = fresh_status;
            let ghost out0 = out@;
            out.push(fresh_status);
            proof {
                assert(out@[i as int] == fs);
                assert(fs.manager.stages@ == stagesv);
                assert forall|j: int, t: int|
                    0 <= j < i + 1 && 0 <= t < self.rules@[j].manager.stages@.len()
                        implies #[trigger] stage_count(out@[j].manager.stages@, t) == stage_count(
                    self.rules@[j].manager.stages@,
                    t,
                ) by {
                    if j < i {
                        assert(out@[j] == out0[j]);
                        assert(stage_count(out0[j].manager.stages@, t) == stage_count(
                            self.rules@[j].manager.stages@,
                            t,
                        ));
                    } else {
                        assert(stage_count(stagesv, t) == stage_count(src.manager.stages@, t));
                    }
                }
                assert forall|j: int, t: int|
                    0 <= j < i + 1 && 0 <= t < self.rules@[j].manager.stages@.len()
                        implies #[trigger] arr_view(out@[j].manager.stages@[t].metas@) == arr_view(
                    self.rules@[j].manager.stages@[t].metas@,
                ) by {
                    if j < i {
                        assert(out@[j] == out0[j]);
                        assert(arr_view(out0[j].manager.stages@[t].metas@) == arr_view(
                            self.rules@[j].manager.stages@[t].metas@,
                        ));
                    } else {
                        assert(arr_view(stagesv[t].metas@) == arr_view(
                            src.manager.stages@[t].metas@,
                        ));
                    }
                }
            }
            i = i + 1;
        }
        Registry { rules: out }
    }
}

} // verus!
