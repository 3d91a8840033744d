//! A compiler that changes the extension of the target file path and
//! of the logical URL path to a fixed one.

use crate::compiler::{CompileStep, Compiler};
use crate::context::Context;
use crate::error::Error;
use crate::metadata::{PATH_META, TARGET_FILE_META};
use crate::paths::{spec_with_extension, with_extension};
use crate::value::{clone_string, obj_lookup, Value, ValueView};
use vstd::prelude::*;

verus! {

pub struct SetExtension {
    pub ext: String,
}

impl SetExtension {
    pub fn new(ext: &str) -> (r: Self)
        ensures
            r.ext@ == ext@,
    {
        SetExtension { ext: ext.to_owned() }
    }
}

/// Replace the extensions of the target path and the URL path, or
/// fail with a metadata error when either is missing.
pub fn set_extension_step(ext: &String, ctx: Context) -> (r: Result<CompileStep, Error>)
    requires
        ctx.wf(),
    ensures
        ({
            let t = obj_lookup(ctx.meta.local.entries(), TARGET_FILE_META@);
            let p = obj_lookup(ctx.meta.local.entries(), PATH_META@);
            match (t, p) {
                (Some(ValueView::Str(ts)), Some(ValueView::Str(ps))) => r matches Ok(step)
                    && step matches CompileStep::Completed(c) && c.wf() && c.meta.local@
                    == ValueView::Obj(
                    crate::value::obj_upsert(
                        crate::value::obj_upsert(
                            ctx.meta.local.entries(),
                            TARGET_FILE_META@,
                            ValueView::Str(spec_with_extension(ts, ext@)),
                        ),
                        PATH_META@,
                        ValueView::Str(spec_with_extension(ps, ext@)),
                    ),
                ) && obj_lookup(c.meta.local.entries(), TARGET_FILE_META@) == Some(
                    ValueView::Str(spec_with_extension(ts, ext@)),
                ) && obj_lookup(c.meta.local.entries(), PATH_META@) == Some(
                    ValueView::Str(spec_with_extension(ps, ext@)),
                ) && c.meta.global == ctx.meta.global,
                _ => r matches Err(e) && e is InvalidMetadata,
            }
        }),
{
    let target = match ctx.target() {
        Some(t) => t,
        None => {
            return Err(Error::InvalidMetadata);
        },
    };
    let path = match ctx.path() {
        Some(p) => p,
        None => {
            return Err(Error::InvalidMetadata);
        },
    };
    let mut ctx = ctx;
    let new_target = with_extension(target.as_str(), ext.as_str());
    let new_path = with_extension(path.as_str(), ext.as_str());
    let ghost l1 = ctx.meta.local.entries();
    ctx.insert_local(TARGET_FILE_META, Value::Str(new_target));
    let ghost l2 = ctx.meta.local.entries();
    ctx.insert_local(PATH_META, Value::Str(new_path));
    proof {
        reveal_strlit("_target");
        reveal_strlit("_path");
        assert(TARGET_FILE_META@ =~= "_target"@);
        assert(PATH_META@ =~= "_path"@);
        assert(TARGET_FILE_META@.len() == 7 && PATH_META@.len() == 5);
        assert(TARGET_FILE_META@ != PATH_META@);
        crate::ledger::lemma_upsert_lookup(
            l1,
            TARGET_FILE_META@,
            ValueView::Str(spec_with_extension(
                obj_lookup(l1, TARGET_FILE_META@)->Some_0->Str_0,
                ext@,
            )),
            TARGET_FILE_META@,
        );
        crate::ledger::lemma_upsert_lookup(
            l2,
            PATH_META@,
            ValueView::Str(spec_with_extension(obj_lookup(l1, PATH_META@)->Some_0->Str_0, ext@)),
            TARGET_FILE_META@,
        );
        crate::ledger::lemma_upsert_lookup(
            l2,
            PATH_META@,
            ValueView::Str(spec_with_extension(obj_lookup(l1, PATH_META@)->Some_0->Str_0, ext@)),
            PATH_META@,
        );
    }
    Ok(CompileStep::Completed(ctx))
}

impl Compiler for SetExtension {
    /// Replace the extensions of the target path and the URL path in
    /// the local scope (which is otherwise untouched), or fail with a
    /// metadata error when either is missing.
    fn next_step(&mut self, ctx: Context) -> (r: Result<CompileStep, Error>)
        ensures
            ({
                let t = obj_lookup(ctx.meta.local.entries(), TARGET_FILE_META@);
                let p = obj_lookup(ctx.meta.local.entries(), PATH_META@);
                match (t, p) {
                    (Some(ValueView::Str(ts)), Some(ValueView::Str(ps))) => r matches Ok(step)
                        && step matches CompileStep::Completed(c) && c.wf() && c.meta.local@
                        == ValueView::Obj(
                        crate::value::obj_upsert(
                            crate::value::obj_upsert(
                                ctx.meta.local.entries(),
                                TARGET_FILE_META@,
                                ValueView::Str(spec_with_extension(ts, old(self).ext@)),
                            ),
                            PATH_META@,
                            ValueView::Str(spec_with_extension(ps, old(self).ext@)),
                        ),
                    ) && c.meta.global == ctx.meta.global,
                    _ => r matches Err(e) && e is InvalidMetadata,
                }
            }),
    {
        set_extension_step(&self.ext, ctx)
    }

    fn duplicate(&self) -> Self {
        SetExtension { ext: clone_string(&self.ext) }
    }
}

} // verus!
