//! The template engine and the compiler that renders the metadata
//! through a named template.

use crate::compiler::metadata::{lemma_insert_all_snoc, spec_insert_all};
use crate::compiler::{CompileStep, Compiler};
use crate::context::Context;
use crate::convert::value_to_json;
use crate::error::Error;
use crate::metadata::{Metadata, BODY_META};
use crate::value::{clone_string, obj_upsert, Value, ValueView};
use serde_json::Value as JsonValue;
use tera::Tera;
use vstd::prelude::*;

verus! {

#[verifier::external_type_specification]
#[verifier::external_body]
pub struct ExTera(Tera);

/// Relies on tera::Tera::new: an engine with no templates yet.
#[verifier::external_body]
fn tera_new() -> Tera {
    Tera::new()
}

/// Relies on tera::Tera::clone: a copy of the engine and its
/// templates.
#[verifier::external_body]
fn tera_clone(t: &Tera) -> Tera {
    t.clone()
}

/// Relies on tera::Tera::add_raw_template: registers a template under
/// a name; a template that does not parse is a user error.
#[verifier::external_body]
fn tera_add_template(t: &mut Tera, name: &str, content: &str) -> (r: Result<(), Error>)
    ensures
        r matches Err(e) ==> e is User,
{
    match t.add_raw_template(name, content) {
        Ok(()) => Ok(()),
        Err(e) => Err(Error::User { message: e.to_string() }),
    }
}

/// Relies on tera::Tera::render and tera::Context::from_serialize:
/// renders the named template against the given JSON data.  What
/// comes out depends on the engine's templates; nothing is assumed of
/// it.  A missing template or a render failure is a user error.
#[verifier::external_body]
fn tera_render(t: &Tera, template: &str, data: &JsonValue) -> (r: Result<String, Error>)
    ensures
        r matches Err(e) ==> e is User,
{
    let ctx = match tera::Context::from_serialize(data) {
        Ok(c) => c,
        Err(e) => {
            return Err(Error::User { message: e.to_string() });
        },
    };
    match t.render(template, &ctx) {
        Ok(s) => Ok(s),
        Err(e) => Err(Error::User { message: e.to_string() }),
    }
}

/// The template engine: named templates registered up front, rendered
/// against the metadata of the task at hand.
pub struct TemplateEngine {
    pub tera: Tera,
}

impl TemplateEngine {
    /// An engine with no templates.  Template sources are handed in
    /// with [`TemplateEngine::add_template`]; reading them from disk
    /// is the caller's business.
    pub fn new() -> (r: Result<Self, Error>)
        ensures
            r is Ok,
    {
        Ok(TemplateEngine { tera: tera_new() })
    }

    /// Register a template under a name.
    pub fn add_template(&mut self, name: &str, content: &str) -> (r: Result<(), Error>)
        ensures
            r matches Err(e) ==> e is User,
    {
        tera_add_template(&mut self.tera, name, content)
    }

    /// A copy of the engine.
    pub fn get(&self) -> Self {
        TemplateEngine { tera: tera_clone(&self.tera) }
    }

    /// Render the named template against the overlay of the two
    /// scopes, the local entries shadowing the global ones.
    pub fn render(&self, template: &str, metadata: &Metadata) -> (r: Result<String, Error>)
        requires
            metadata.wf(),
        ensures
            r matches Err(e) ==> e is User,
    {
        let combined = overlay(metadata);
        let data = value_to_json(&combined);
        tera_render(&self.tera, template, &data)
    }
}

/// The single map a template sees: the global entries with every
/// local entry upserted over them, so that a local entry shadows a
/// global one of the same key, as in the store's own lookup.
#[verifier::loop_isolation(false)]
pub fn overlay(metadata: &Metadata) -> (r: Value)
    requires
        metadata.wf(),
    ensures
        r@ == ValueView::Obj(
            spec_insert_all(metadata.global.entries(), metadata.local.entries()),
        ),
{
    let mut combined = metadata.global.duplicate();
    let ghost g0 = metadata.global.entries();
    match metadata.local() {
        Value::Obj(entries) => {
            let ghost pairs = crate::value::entries_view(entries@);
            proof {
                crate::value::lemma_entries_view(entries@);
                assert(pairs.take(0int) =~= Seq::<(Seq<char>, ValueView)>::empty());
            }
            let mut i: usize = 0;
            #[verifier::loop_isolation(false)]
            while i < entries.len()
                invariant
                    i <= entries@.len(),
                    pairs == crate::value::entries_view(entries@),
                    combined@ == ValueView::Obj(spec_insert_all(g0, pairs.take(i as int))),
                decreases entries@.len() - i,
            {
                proof {
                    assert(pairs.take(i as int).push(pairs[i as int]) =~= pairs.take(i + 1));
                    lemma_insert_all_snoc(g0, pairs.take(i as int), pairs[i as int]);
                }
                combined.obj_insert(entries[i].0.as_str(), entries[i].1.duplicate());
                i = i + 1;
            }
            proof {
                assert(pairs.take(pairs.len() as int) =~= pairs);
            }
        },
        _ => {
            proof {
                assert(false);
            }
        },
    }
    combined
}

/// Renders the named template against the task's metadata and stores
/// the output as the new body.
pub struct TemplateRenderer {
    pub engine: TemplateEngine,
    pub template: String,
}

impl TemplateRenderer {
    pub fn new(engine: TemplateEngine, template: &str) -> (r: Self)
        ensures
            r.template@ == template@,
    {
        TemplateRenderer { engine, template: template.to_owned() }
    }
}

impl Compiler for TemplateRenderer {
    /// Render and store the output under the body key; whatever the
    /// engine produced, the rest of the local scope is untouched.
    fn next_step(&mut self, ctx: Context) -> (r: Result<CompileStep, Error>)
        ensures
            r matches Ok(step) ==> (step matches CompileStep::Completed(c) && c.wf() && exists|
                s: Seq<char>,
            |
                c.meta.local@ == ValueView::Obj(
                    #[trigger] obj_upsert(
                        ctx.meta.local.entries(),
                        BODY_META@,
                        ValueView::Str(s),
                    ),
                )),
    {
        let body = match self.engine.render(self.template.as_str(), ctx.metadata()) {
            Ok(s) => s,
            Err(e) => {
                return Err(e);
            },
        };
        let mut ctx = ctx;
        let ghost l0 = ctx.meta.local.entries();
        let ghost bodyv = body@;
        ctx.insert_local(BODY_META, Value::Str(body));
        proof {
            assert(ctx.meta.local@ == ValueView::Obj(
                obj_upsert(l0, BODY_META@, ValueView::Str(bodyv)),
            ));
        }
        Ok(CompileStep::Completed(ctx))
    }

    fn duplicate(&self) -> Self {
        TemplateRenderer { engine: self.engine.get(), template: clone_string(&self.template) }
    }
}

} // verus!
