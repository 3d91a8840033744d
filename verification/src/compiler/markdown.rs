//! The markdown renderer: parse the body's front matter into local
//! metadata and render the remaining markdown to HTML.

use crate::compiler::{CompileStep, Compiler};
use crate::compiler::metadata::spec_insert_all;
use crate::context::Context;
use crate::convert::json_to_value;
use crate::error::Error;
use crate::metadata::BODY_META;
use crate::value::{entries_view, obj_lookup, Value, ValueView};
use vstd::prelude::*;

verus! {

/// The HTML that the markdown renderer produces for a given text,
/// with the full extension set enabled.  It depends on the text alone.
pub uninterp spec fn html_of(md: Seq<char>) -> Seq<char>;

/// The front-matter headers of a text, as a metadata value.
pub uninterp spec fn fm_headers_of(text: Seq<char>) -> ValueView;

/// The body that remains after the front matter of a text.
pub uninterp spec fn fm_body_of(text: Seq<char>) -> Seq<char>;

/// Relies on pulldown_cmark's Parser and push_html: renders markdown
/// to HTML with every extension enabled.  The result depends on the
/// input text alone.
#[verifier::external_body]
pub fn markdown_to_html(md: &str) -> (r: String)
    ensures
        r@ == html_of(md@),
{
    let parser = pulldown_cmark::Parser::new_ext(md, pulldown_cmark::Options::all());
    let mut html = String::new();
    pulldown_cmark::html::push_html(&mut html, parser);
    html
}

/// Relies on fronma::parser::parse: splits a text into front-matter
/// headers (parsed as a JSON-like value) and the remaining body.  The
/// split and the parse depend on the text alone.  A text without a
/// front-matter block, or one whose headers do not parse, is a
/// metadata error; headers that do not convert losslessly are a
/// conversion error.
#[verifier::external_body]
pub fn parse_front_matter(text: &str) -> (r: Result<(Value, String), Error>)
    ensures
        r matches Ok((h, b)) ==> h@ == fm_headers_of(text@) && b@ == fm_body_of(text@),
        r matches Err(e) ==> e is InvalidMetadata || e is SerdeJson,
{
    match fronma::parser::parse::<serde_json::Value>(text) {
        Err(_) => Err(Error::InvalidMetadata),
        Ok(parsed) => {
            let headers = json_to_value(&parsed.headers)?;
            Ok((headers, parsed.body.to_string()))
        },
    }
}

/// Reads the body as markdown with a front-matter block, stores the
/// headers into the local scope, and replaces the body by the
/// rendered HTML.
pub struct MarkdownRenderer {}

impl MarkdownRenderer {
    pub fn new() -> (r: Self) {
        MarkdownRenderer {  }
    }
}

/// Parse the body's front matter, store each header entry into the
/// local scope (headers that are not an object are ignored, as they
/// carry no keys), and store the rendered HTML of the remaining text
/// as the new body.
pub fn markdown_step(ctx: Context) -> (r: Result<CompileStep, Error>)
    requires
        ctx.wf(),
    ensures
        r matches Ok(step) ==> step matches CompileStep::Completed(c) && c.wf() && ({
            let body0 = obj_lookup(ctx.meta.local.entries(), BODY_META@)->Some_0->Str_0;
            let headers = fm_headers_of(body0);
            let seeded = if headers is Obj {
                spec_insert_all(ctx.meta.local.entries(), headers->Obj_0)
            } else {
                ctx.meta.local.entries()
            };
            c.meta.local@ == ValueView::Obj(
                crate::value::obj_upsert(
                    seeded,
                    BODY_META@,
                    ValueView::Str(html_of(fm_body_of(body0))),
                ),
            )
        }),
        match obj_lookup(ctx.meta.local.entries(), BODY_META@) {
            Some(ValueView::Str(_)) => true,
            _ => r is Err,
        },
{
    let body = match ctx.body() {
        Some(v) => match v.as_str() {
            Some(s) => crate::value::clone_string(s),
            None => {
                return Err(Error::InvalidMetadata);
            },
        },
        None => {
            return Err(Error::InvalidMetadata);
        },
    };
    let (headers, rest) = match parse_front_matter(body.as_str()) {
        Ok(p) => p,
        Err(e) => {
            return Err(e);
        },
    };
    let mut ctx = ctx;
    let ghost l0 = ctx.meta.local.entries();
    let ghost hv = headers@;
    match headers {
        Value::Obj(entries) => {
            let ghost pairs = entries_view(entries@);
            let mut i: usize = 0;
            proof {
                crate::value::lemma_entries_view(entries@);
                assert(pairs.take(0int) =~= Seq::<(Seq<char>, ValueView)>::empty());
            }
            #[verifier::loop_isolation(false)]
            while i < entries.len()
                invariant
                    i <= entries@.len(),
                    pairs == entries_view(entries@),
                    ctx.wf(),
                    ctx.meta.local@ == ValueView::Obj(spec_insert_all(l0, pairs.take(i as int))),
                decreases entries@.len() - i,
            {
                proof {
                    assert(pairs.take(i as int).push(pairs[i as int]) =~= pairs.take(i + 1));
                    crate::compiler::metadata::lemma_insert_all_snoc(
                        l0,
                        pairs.take(i as int),
                        pairs[i as int],
                    );
                }
                ctx.insert_local(entries[i].0.as_str(), entries[i].1.duplicate());
                i = i + 1;
            }
            proof {
                assert(pairs.take(pairs.len() as int) =~= pairs);
            }
        },
        _ => {},
    }
    let html = markdown_to_html(rest.as_str());
    ctx.insert_local(BODY_META, Value::Str(html));
    Ok(CompileStep::Completed(ctx))
}

impl Compiler for MarkdownRenderer {
    /// Parse the body's front matter into local metadata and replace
    /// the body by the rendered HTML of the remaining text.
    fn next_step(&mut self, ctx: Context) -> (r: Result<CompileStep, Error>)
        ensures
            r matches Ok(step) ==> step matches CompileStep::Completed(c) && c.wf() && ({
                let body0 = obj_lookup(ctx.meta.local.entries(), BODY_META@)->Some_0->Str_0;
                let headers = fm_headers_of(body0);
                let seeded = if headers is Obj {
                    spec_insert_all(ctx.meta.local.entries(), headers->Obj_0)
                } else {
                    ctx.meta.local.entries()
                };
                c.meta.local@ == ValueView::Obj(
                    crate::value::obj_upsert(
                        seeded,
                        BODY_META@,
                        ValueView::Str(html_of(fm_body_of(body0))),
                    ),
                )
            }),
            match obj_lookup(ctx.meta.local.entries(), BODY_META@) {
                Some(ValueView::Str(_)) => true,
                _ => r is Err,
            },
    {
        markdown_step(ctx)
    }

    fn duplicate(&self) -> Self {
        MarkdownRenderer {  }
    }
}

} // verus!
