//! A compiler that stores fixed metadata entries: global entries into
//! the shared scope, local entries into the task's own scope.

use crate::compiler::{CompileStep, Compiler};
use crate::context::Context;
use crate::error::Error;
use crate::value::{clone_string, entries_view, obj_upsert, Value, ValueView};
use vstd::prelude::*;

verus! {

pub struct SetMetadata {
    pub global: Vec<(String, Value)>,
    pub compiling: Vec<(String, Value)>,
}

/// `es` after upserting every pair of `pairs`, left to right.
pub open spec fn spec_insert_all(
    es: Seq<(Seq<char>, ValueView)>,
    pairs: Seq<(Seq<char>, ValueView)>,
) -> Seq<(Seq<char>, ValueView)>
    decreases pairs.len(),
{
    if pairs.len() == 0 {
        es
    } else {
        spec_insert_all(obj_upsert(es, pairs[0].0, pairs[0].1), pairs.drop_first())
    }
}

pub proof fn lemma_insert_all_snoc(
    es: Seq<(Seq<char>, ValueView)>,
    pairs: Seq<(Seq<char>, ValueView)>,
    e: (Seq<char>, ValueView),
)
    ensures
        spec_insert_all(es, pairs.push(e)) == obj_upsert(spec_insert_all(es, pairs), e.0, e.1),
    decreases pairs.len(),
{
    reveal_with_fuel(spec_insert_all, 3);
    if pairs.len() == 0 {
        assert(pairs.push(e)[0] == e);
        assert(pairs.push(e).drop_first() =~= Seq::<(Seq<char>, ValueView)>::empty());
    } else {
        assert(pairs.push(e)[0] == pairs[0]);
        assert(pairs.push(e).drop_first() =~= pairs.drop_first().push(e));
        lemma_insert_all_snoc(obj_upsert(es, pairs[0].0, pairs[0].1), pairs.drop_first(), e);
    }
}

impl SetMetadata {
    pub fn new() -> (r: Self)
        ensures
            r.global@.len() == 0,
            r.compiling@.len() == 0,
    {
        SetMetadata { global: Vec::new(), compiling: Vec::new() }
    }

    /// Add an entry destined for the global scope.  Every plain value
    /// converts, so this always succeeds.
    pub fn global(self, k: &str, v: Value) -> (r: Result<Self, Error>)
        ensures
            r matches Ok(s) && ({
                &&& entries_view(s.global@) == entries_view(self.global@).push((k@, v@))
                &&& s.compiling == self.compiling
            }),
    {
        let ghost sg = self.global@;
        let ghost vv = v@;
        let mut global = self.global;
        global.push((k.to_owned(), v));
        proof {
            assert(entries_view(global@) =~= entries_view(sg).push((k@, vv)));
        }
        Ok(SetMetadata { global, compiling: self.compiling })
    }

    /// Add an entry destined for the task's local scope.  Every plain
    /// value converts, so this always succeeds.
    pub fn local(self, k: &str, v: Value) -> (r: Result<Self, Error>)
        ensures
            r matches Ok(s) && ({
                &&& entries_view(s.compiling@) == entries_view(self.compiling@).push((k@, v@))
                &&& s.global == self.global
            }),
    {
        let ghost sc = self.compiling@;
        let ghost vv = v@;
        let mut compiling = self.compiling;
        compiling.push((k.to_owned(), v));
        proof {
            assert(entries_view(compiling@) =~= entries_view(sc).push((k@, vv)));
        }
        Ok(SetMetadata { global: self.global, compiling })
    }
}

/// Upsert every stored entry into its scope, in order, and complete.
#[verifier::loop_isolation(false)]
pub fn set_metadata_step(sm: &SetMetadata, ctx: Context) -> (r: Result<CompileStep, Error>)
    requires
        ctx.wf(),
    ensures
        r matches Ok(step) && step matches CompileStep::Completed(c) && ({
            &&& c.wf()
            &&& c.meta.global@ == ValueView::Obj(
                spec_insert_all(ctx.meta.global.entries(), entries_view(sm.global@)),
            )
            &&& c.meta.local@ == ValueView::Obj(
                spec_insert_all(ctx.meta.local.entries(), entries_view(sm.compiling@)),
            )
        }),
{
    let ghost g0 = ctx.meta.global.entries();
    let ghost l0 = ctx.meta.local.entries();
    let ghost gpairs = entries_view(sm.global@);
    let ghost lpairs = entries_view(sm.compiling@);
    let mut ctx = ctx;
    let mut i: usize = 0;
    proof {
        assert(gpairs.take(0int) =~= Seq::<(Seq<char>, ValueView)>::empty());
    }
    while i < sm.global.len()
        invariant
            i <= sm.global@.len(),
            ctx.wf(),
            ctx.meta.global@ == ValueView::Obj(spec_insert_all(g0, gpairs.take(i as int))),
            ctx.meta.local.entries() == l0,
            ctx.meta.local@ is Obj,
        decreases sm.global@.len() - i,
    {
        proof {
            assert(gpairs.take(i as int).push(gpairs[i as int]) =~= gpairs.take(i + 1));
            lemma_insert_all_snoc(g0, gpairs.take(i as int), gpairs[i as int]);
        }
        ctx.insert_global(sm.global[i].0.as_str(), sm.global[i].1.duplicate());
        i = i + 1;
    }
    proof {
        assert(gpairs.take(gpairs.len() as int) =~= gpairs);
        assert(lpairs.take(0int) =~= Seq::<(Seq<char>, ValueView)>::empty());
    }
    let mut j: usize = 0;
    while j < sm.compiling.len()
        invariant
            j <= sm.compiling@.len(),
            ctx.wf(),
            ctx.meta.global@ == ValueView::Obj(spec_insert_all(g0, gpairs)),
            ctx.meta.local@ == ValueView::Obj(spec_insert_all(l0, lpairs.take(j as int))),
        decreases sm.compiling@.len() - j,
    {
        proof {
            assert(lpairs.take(j as int).push(lpairs[j as int]) =~= lpairs.take(j + 1));
            lemma_insert_all_snoc(l0, lpairs.take(j as int), lpairs[j as int]);
        }
        ctx.insert_local(sm.compiling[j].0.as_str(), sm.compiling[j].1.duplicate());
        j = j + 1;
    }
    proof {
        assert(lpairs.take(lpairs.len() as int) =~= lpairs);
    }
    Ok(CompileStep::Completed(ctx))
}

/// A copy of an entry vector, views preserved.
#[verifier::loop_isolation(false)]
pub fn duplicate_entries(v: &Vec<(String, Value)>) -> (r: Vec<(String, Value)>)
    ensures
        entries_view(r@) == entries_view(v@),
{
    let mut out: Vec<(String, Value)> = Vec::new();
    let mut i: usize = 0;
    while i < v.len()
        invariant
            i <= v@.len(),
            out@.len() == i,
            forall|j: int| 0 <= j < i ==> (#[trigger] out@[j]).0@ == v@[j].0@
                && crate::value::value_view(out@[j].1) == crate::value::value_view(v@[j].1),
        decreases v@.len() - i,
    {
        out.push((clone_string(&v[i].0), v[i].1.duplicate()));
        i = i + 1;
    }
    proof {
        assert(entries_view(out@) =~= entries_view(v@));
    }
    out
}

impl Compiler for SetMetadata {
    /// Upsert every stored global entry into the global scope and
    /// every stored local entry into the local scope, in order, and
    /// complete.
    fn next_step(&mut self, ctx: Context) -> (r: Result<CompileStep, Error>)
        ensures
            r matches Ok(step) && step matches CompileStep::Completed(c) && ({
                &&& c.wf()
                &&& c.meta.global@ == ValueView::Obj(
                    spec_insert_all(
                        ctx.meta.global.entries(),
                        entries_view(old(self).global@),
                    ),
                )
                &&& c.meta.local@ == ValueView::Obj(
                    spec_insert_all(
                        ctx.meta.local.entries(),
                        entries_view(old(self).compiling@),
                    ),
                )
            }),
    {
        set_metadata_step(self, ctx)
    }

    fn duplicate(&self) -> Self {
        SetMetadata {
            global: duplicate_entries(&self.global),
            compiling: duplicate_entries(&self.compiling),
        }
    }
}

} // verus!
