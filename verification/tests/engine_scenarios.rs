use polysite::builder::Builder;
use polysite::compiler::markdown::MarkdownRenderer;
use polysite::compiler::metadata::SetMetadata;
use polysite::compiler::path::SetExtension;
use polysite::compiler::snapshot::{SaveSnapshot, WaitSnapshot};
use polysite::compiler::template::{TemplateEngine, TemplateRenderer};
use polysite::compiler::utils::{PipeCompiler, WaitStage};
use polysite::compiler::{CompileStep, Compiler};
use polysite::config::Config;
use polysite::context::Context;
use polysite::error::Error;
use polysite::runner::{runnable, RuleExec, Task};
use polysite::snapshot::{SnapshotManager, SnapshotStage};
use polysite::value::Value;
use std::cell::RefCell;
use std::rc::Rc;

fn s(x: &str) -> String {
    x.to_string()
}

fn test_config() -> Config {
    Config::default().set_source_dir("site").set_target_dir("dist")
}

/// Counts how many tasks ran it to completion.
struct CountingCompiler {
    count: Rc<RefCell<usize>>,
}

impl Compiler for CountingCompiler {
    fn next_step(&mut self, ctx: Context) -> Result<CompileStep, Error> {
        *self.count.borrow_mut() += 1;
        Ok(CompileStep::Completed(ctx))
    }

    fn duplicate(&self) -> Self {
        CountingCompiler { count: Rc::clone(&self.count) }
    }
}

#[test]
fn version_ledger_skips_second_build() {
    // Scenario: a rule matching three paths, built twice on the same
    // builder: each path compiles exactly once in total.
    let count = Rc::new(RefCell::new(0usize));
    let rule = polysite::rule::Rule::new("hello", CountingCompiler { count: Rc::clone(&count) })
        .set_create(vec![s("a.txt"), s("b.txt"), s("c.txt")]);
    let mut builder = Builder::new(test_config()).add_step(vec![rule]);
    assert!(builder.build().is_ok());
    assert_eq!(*count.borrow(), 3);
    assert!(builder.build().is_ok());
    assert_eq!(*count.borrow(), 3);
}

/// Writes its source path under a key, snapshots, then completes.
struct PostCompiler {
    emitted: bool,
}

impl Compiler for PostCompiler {
    fn next_step(&mut self, mut ctx: Context) -> Result<CompileStep, Error> {
        if !self.emitted {
            self.emitted = true;
            let src = ctx.source().ok_or(Error::InvalidMetadata)?;
            ctx.insert_local("title", Value::Str(src));
            Ok(CompileStep::WaitStage(ctx))
        } else {
            Ok(CompileStep::Completed(ctx))
        }
    }

    fn duplicate(&self) -> Self {
        PostCompiler { emitted: false }
    }
}

/// Waits for every `posts` task's first snapshot, then captures the
/// snapshot cross-cut as its listing.
struct IndexCompiler {}

impl Compiler for IndexCompiler {
    fn next_step(&mut self, mut ctx: Context) -> Result<CompileStep, Error> {
        match ctx.rule_stage_reached("posts", 1)? {
            false => Ok(CompileStep::InProgress(ctx)),
            true => {
                let cut = ctx.rule_snapshots("posts")?.ok_or(Error::InvalidMetadata)?;
                ctx.insert_local("listing", Value::Arr(cut));
                Ok(CompileStep::Completed(ctx))
            },
        }
    }

    fn duplicate(&self) -> Self {
        IndexCompiler {}
    }
}

/// One step can hold rules with different compilers through this
/// dispatching wrapper.
enum StepCompiler {
    Post(PostCompiler),
    Index(IndexCompiler),
    Failing(FailingCompiler),
    Noop(NoopCompiler),
    CopyGlobal(CopyGlobalCompiler),
    SetMeta(SetMetadata),
}

impl Compiler for StepCompiler {
    fn next_step(&mut self, ctx: Context) -> Result<CompileStep, Error> {
        match self {
            StepCompiler::Post(c) => c.next_step(ctx),
            StepCompiler::Index(c) => c.next_step(ctx),
            StepCompiler::Failing(c) => c.next_step(ctx),
            StepCompiler::Noop(c) => c.next_step(ctx),
            StepCompiler::CopyGlobal(c) => c.next_step(ctx),
            StepCompiler::SetMeta(c) => c.next_step(ctx),
        }
    }

    fn duplicate(&self) -> Self {
        match self {
            StepCompiler::Post(c) => StepCompiler::Post(c.duplicate()),
            StepCompiler::Index(c) => StepCompiler::Index(c.duplicate()),
            StepCompiler::Failing(c) => StepCompiler::Failing(c.duplicate()),
            StepCompiler::Noop(c) => StepCompiler::Noop(c.duplicate()),
            StepCompiler::CopyGlobal(c) => StepCompiler::CopyGlobal(c.duplicate()),
            StepCompiler::SetMeta(c) => StepCompiler::SetMeta(c.duplicate()),
        }
    }
}

#[test]
fn inter_rule_barrier_sees_every_post() {
    // Scenario: `index` waits on `posts` reaching stage 1; its listing
    // must hold metadata from both post files, never from only one.
    let posts = polysite::rule::Rule::new(
        "posts",
        StepCompiler::Post(PostCompiler { emitted: false }),
    )
    .set_create(vec![s("posts/one.md"), s("posts/two.md")]);
    let index = polysite::rule::Rule::new("index", StepCompiler::Index(IndexCompiler {}))
        .set_create(vec![s("index.html")]);
    let mut builder = Builder::new(test_config()).add_step(vec![posts, index]);
    assert!(builder.build().is_ok());
    let global = builder.global();
    let index_results = match global.obj_get("index").unwrap() {
        Value::Arr(a) => a,
        other => panic!("index results not an array: {:?}", other),
    };
    assert_eq!(index_results.len(), 1);
    let listing = match &index_results[0] {
        Value::Obj(es) => es.iter().find(|(k, _)| k == "listing").map(|(_, v)| v).unwrap(),
        other => panic!("index local not an object: {:?}", other),
    };
    let entries = match listing {
        Value::Arr(a) => a,
        other => panic!("listing not an array: {:?}", other),
    };
    assert_eq!(entries.len(), 2);
    let mut titles: Vec<String> = entries
        .iter()
        .map(|e| match e {
            Value::Obj(es) => match es.iter().find(|(k, _)| k == "title") {
                Some((_, Value::Str(t))) => t.clone(),
                other => panic!("missing title: {:?}", other),
            },
            other => panic!("snapshot not an object: {:?}", other),
        })
        .collect();
    titles.sort();
    assert_eq!(titles, vec![s("site/posts/one.md"), s("site/posts/two.md")]);
}

/// Fails on one specific source path, succeeds on the others.
struct FailingCompiler {}

impl Compiler for FailingCompiler {
    fn next_step(&mut self, ctx: Context) -> Result<CompileStep, Error> {
        if ctx.source() == Some(s("site/b.txt")) {
            Err(Error::user_error(s("cannot build b")))
        } else {
            Ok(CompileStep::Completed(ctx))
        }
    }

    fn duplicate(&self) -> Self {
        FailingCompiler {}
    }
}

struct NoopCompiler {}

impl Compiler for NoopCompiler {
    fn next_step(&mut self, ctx: Context) -> Result<CompileStep, Error> {
        Ok(CompileStep::Completed(ctx))
    }

    fn duplicate(&self) -> Self {
        NoopCompiler {}
    }
}

#[test]
fn first_error_stops_before_the_next_step() {
    // Scenario: a step whose rule fails for one of three paths runs
    // beside a succeeding rule; the build reports the error and never
    // advances to the later step.
    let failing = polysite::rule::Rule::new("broken", StepCompiler::Failing(FailingCompiler {}))
        .set_create(vec![s("a.txt"), s("b.txt"), s("c.txt")]);
    let fine = polysite::rule::Rule::new("fine", StepCompiler::Noop(NoopCompiler {}))
        .set_create(vec![s("d.txt")]);
    let later = polysite::rule::Rule::new("later", StepCompiler::Noop(NoopCompiler {}))
        .set_create(vec![s("e.txt")]);
    let mut builder = Builder::new(test_config())
        .add_step(vec![failing, fine])
        .add_step(vec![later]);
    let result = builder.build();
    assert_eq!(result, Err(Error::User { message: s("cannot build b") }));
    assert!(builder.global().obj_get("later").is_none());
}

/// Copies one global key into its local scope.
struct CopyGlobalCompiler {
    key: String,
}

impl Compiler for CopyGlobalCompiler {
    fn next_step(&mut self, mut ctx: Context) -> Result<CompileStep, Error> {
        let v = ctx.metadata().get(self.key.as_str()).ok_or(Error::InvalidMetadata)?;
        ctx.insert_local("copied", v);
        Ok(CompileStep::Completed(ctx))
    }

    fn duplicate(&self) -> Self {
        CopyGlobalCompiler { key: self.key.clone() }
    }
}

#[test]
fn steps_order_global_writes_before_later_reads() {
    // A key written by the first step's rule is always present when
    // the second step's rule reads it.
    let writer = SetMetadata::new().global("site_title", Value::Str(s("Hello"))).unwrap();
    let first = polysite::rule::Rule::new("first", StepCompiler::SetMeta(writer))
        .set_create(vec![s("meta")]);
    let second = polysite::rule::Rule::new(
        "second",
        StepCompiler::CopyGlobal(CopyGlobalCompiler { key: s("site_title") }),
    ).set_create(vec![s("page")]);
    let mut builder = Builder::new(test_config())
        .add_step(vec![first])
        .add_step(vec![second]);
    assert!(builder.build().is_ok());
    let results = match builder.global().obj_get("second").unwrap() {
        Value::Arr(a) => a,
        other => panic!("unexpected results: {:?}", other),
    };
    match &results[0] {
        Value::Obj(es) => {
            let copied = es.iter().find(|(k, _)| k == "copied").map(|(_, v)| v);
            assert_eq!(copied, Some(&Value::Str(s("Hello"))));
        },
        other => panic!("unexpected local: {:?}", other),
    }
}

#[test]
fn intra_rule_barrier_holds_back_the_fast_task() {
    let task = |waiting: bool| Task {
        compiler: NoopCompiler {},
        local: Value::empty_obj(),
        source: s("x"),
        waiting,
        done: false,
        failed: false,
    };
    let mut ahead = SnapshotStage::new();
    ahead.push(Value::Null);
    let behind = SnapshotStage::new();
    let re = RuleExec {
        name: s("r"),
        version: s("default"),
        tasks: vec![task(true), task(false)],
        manager: SnapshotManager { stages: vec![ahead, behind] },
        results: Vec::new(),
    };
    // the waiting task with one snapshot may not run while its sibling
    // has none; the sibling itself may run
    assert!(!runnable(&re, 0));
    assert!(runnable(&re, 1));
}

#[test]
fn wait_stage_synchronizes_siblings() {
    // Two tasks, each snapshotting once before completing: the build
    // finishes, and each task's snapshot is recorded.
    let rule = polysite::rule::Rule::new("sync", PostCompiler { emitted: false })
        .set_create(vec![s("a"), s("b")]);
    let mut builder = Builder::new(test_config()).add_step(vec![rule]);
    assert!(builder.build().is_ok());
    let results = match builder.global().obj_get("sync").unwrap() {
        Value::Arr(a) => a,
        other => panic!("unexpected results: {:?}", other),
    };
    assert_eq!(results.len(), 2);
}

#[test]
fn waiting_on_an_unregistered_rule_fails() {
    let w = WaitSnapshot::new().wait("ghost", 1);
    let rule = polysite::rule::Rule::new("waiter", w).set_create(vec![s("a")]);
    let mut builder = Builder::new(test_config()).add_step(vec![rule]);
    assert_eq!(builder.build(), Err(Error::UnknownRule { rule: s("ghost") }));
}

#[test]
fn rule_needs_exactly_one_matching_policy() {
    let neither = polysite::rule::Rule::new("r", NoopCompiler {});
    let mut builder = Builder::new(test_config()).add_step(vec![neither]);
    assert_eq!(builder.build(), Err(Error::InvalidRule));
    let both = polysite::rule::Rule::new("r", NoopCompiler {})
        .set_globs(vec![s("*.md")])
        .set_create(vec![s("a")]);
    let mut builder = Builder::new(test_config()).add_step(vec![both]);
    assert_eq!(builder.build(), Err(Error::InvalidRule));
}

#[test]
fn markdown_renders_front_matter_and_body() {
    let mut ctx = Context::new(test_config());
    ctx.insert_local(
        "_body",
        Value::Str(s("---\ntitle: greeting\n---\n# Hello")),
    );
    let mut mr = MarkdownRenderer::new();
    let step = mr.next_step(ctx).unwrap();
    let c = match step {
        CompileStep::Completed(c) => c,
        _ => panic!("markdown did not complete"),
    };
    let title = c.meta.local.obj_get("title").unwrap();
    assert_eq!(title, &Value::Str(s("greeting")));
    let body = c.meta.local.obj_get("_body").unwrap();
    assert_eq!(body, &Value::Str(s("<h1>Hello</h1>\n")));
}

#[test]
fn markdown_header_beyond_the_integer_range_is_a_conversion_error() {
    // a fractional header does not convert losslessly into the
    // integer-valued metadata representation
    let mut ctx = Context::new(test_config());
    ctx.insert_local("_body", Value::Str(s("---\nn: 1.5\n---\nx")));
    let mut mr = MarkdownRenderer::new();
    let r = mr.next_step(ctx);
    assert!(matches!(r, Err(Error::SerdeJson { .. })));
}

#[test]
fn markdown_without_front_matter_is_an_error() {
    let mut ctx = Context::new(test_config());
    ctx.insert_local("_body", Value::Str(s("# plain")));
    let mut mr = MarkdownRenderer::new();
    let r = mr.next_step(ctx);
    assert!(matches!(r, Err(Error::InvalidMetadata)));
}

#[test]
fn template_renders_metadata() {
    let mut engine = TemplateEngine::new().unwrap();
    engine.add_template("page", "Hello {{ name }}!").unwrap();
    let mut ctx = Context::new(test_config());
    ctx.insert_local("name", Value::Str(s("World")));
    let mut tr = TemplateRenderer::new(engine, "page");
    let step = tr.next_step(ctx).unwrap();
    let c = match step {
        CompileStep::Completed(c) => c,
        _ => panic!("template did not complete"),
    };
    let body = c.meta.local.obj_get("_body").unwrap();
    assert_eq!(body, &Value::Str(s("Hello World!")));
}

#[test]
fn set_extension_rewrites_target_and_path() {
    let rule = polysite::rule::Rule::new(
        "pages",
        PipeCompiler::new().add_compiler(SetExtension::new("html")),
    )
    .set_create(vec![s("posts/note.md")]);
    let mut builder = Builder::new(test_config()).add_step(vec![rule]);
    assert!(builder.build().is_ok());
    let results = match builder.global().obj_get("pages").unwrap() {
        Value::Arr(a) => a,
        other => panic!("unexpected results: {:?}", other),
    };
    match &results[0] {
        Value::Obj(es) => {
            let target = es.iter().find(|(k, _)| k == "_target").map(|(_, v)| v);
            let path = es.iter().find(|(k, _)| k == "_path").map(|(_, v)| v);
            assert_eq!(target, Some(&Value::Str(s("dist/posts/note.html"))));
            assert_eq!(path, Some(&Value::Str(s("/posts/note.html"))));
        },
        other => panic!("unexpected local: {:?}", other),
    }
}

#[test]
fn wait_stage_compiler_counts_barriers() {
    let rule = polysite::rule::Rule::new(
        "stages",
        PipeCompiler::new().add_compiler(WaitStage::wait_steps(2)).add_compiler(WaitStage::new()),
    )
    .set_create(vec![s("a"), s("b")]);
    let mut builder = Builder::new(test_config()).add_step(vec![rule]);
    assert!(builder.build().is_ok());
    let results = match builder.global().obj_get("stages").unwrap() {
        Value::Arr(a) => a,
        other => panic!("unexpected results: {:?}", other),
    };
    assert_eq!(results.len(), 2);
}

/// Prints what it was asked to compile, then completes.
struct PrintCompiler;

impl Compiler for PrintCompiler {
    fn next_step(&mut self, ctx: Context) -> Result<CompileStep, Error> {
        let src = ctx.source().ok_or(Error::InvalidMetadata)?;
        let tgt = ctx.target().ok_or(Error::InvalidMetadata)?;
        println!("{} -> {}", src, tgt);
        Ok(CompileStep::Completed(ctx))
    }

    fn duplicate(&self) -> Self {
        PrintCompiler
    }
}

enum SiteStep {
    Print(PrintCompiler),
    Pipe(PipeCompiler<SiteStep>),
    Ext(SetExtension),
}

impl Compiler for SiteStep {
    fn next_step(&mut self, ctx: Context) -> Result<CompileStep, Error> {
        match self {
            SiteStep::Print(c) => c.next_step(ctx),
            SiteStep::Pipe(c) => c.next_step(ctx),
            SiteStep::Ext(c) => c.next_step(ctx),
        }
    }

    fn duplicate(&self) -> Self {
        match self {
            SiteStep::Print(c) => SiteStep::Print(c.duplicate()),
            SiteStep::Pipe(c) => SiteStep::Pipe(c.duplicate()),
            SiteStep::Ext(c) => SiteStep::Ext(c.duplicate()),
        }
    }
}

#[test]
fn build_site() {
    let config = Config::default().set_source_dir("src");
    let builder = Builder::new(config);
    let mut builder = builder
        // Add one rule as build step
        .add_step(vec![polysite::rule::Rule::new("hello", SiteStep::Print(PrintCompiler))
            .set_globs(vec![s("builder/**/*.rs")])])
        // Rules in same step will build concurrently, but
        // the file matching is evaluated in order
        .add_step(vec![
            polysite::rule::Rule::new(
                "compile",
                SiteStep::Pipe(
                    PipeCompiler::new()
                        .add_compiler(SiteStep::Ext(SetExtension::new("txt")))
                        .add_compiler(SiteStep::Print(PrintCompiler)),
                ),
            )
            .set_globs(vec![s("compiler/*")]),
            polysite::rule::Rule::new(
                "compile",
                SiteStep::Pipe(
                    PipeCompiler::new()
                        .add_compiler(SiteStep::Ext(SetExtension::new("txt")))
                        .add_compiler(SiteStep::Print(PrintCompiler)),
                ),
            )
            .set_globs(vec![s("**/*")]),
        ]);
    let result = builder.build();
    println!("{:?}", result);
    assert!(result.is_ok());
}

#[test]
fn save_snapshot_records_without_waiting() {
    // A single task snapshots and completes in the same pass: nothing
    // holds it at a barrier, and the snapshot is recorded.
    let rule = polysite::rule::Rule::new(
        "solo",
        PipeCompiler::new().add_compiler(SaveSnapshot::new()),
    )
    .set_create(vec![s("only.txt")]);
    let mut builder = Builder::new(test_config()).add_step(vec![rule]);
    assert!(builder.build().is_ok());
    let status = builder
        .registry
        .rules
        .iter()
        .find(|r| r.name == "solo")
        .expect("rule not registered");
    assert!(status.finished);
    assert_eq!(status.manager.stages.len(), 1);
    assert_eq!(status.manager.stages[0].metas.len(), 1);
}

#[test]
fn pipe_passes_errors_through() {
    let rule = polysite::rule::Rule::new(
        "broken_pipe",
        PipeCompiler::new()
            .add_compiler(StepCompiler::Noop(NoopCompiler {}))
            .add_compiler(StepCompiler::Failing(FailingCompiler {})),
    )
    .set_create(vec![s("b.txt")]);
    let mut builder = Builder::new(test_config()).add_step(vec![rule]);
    assert_eq!(
        builder.build(),
        Err(Error::User { message: s("cannot build b") })
    );
}

#[test]
fn version_tags_partition_the_ledger() {
    assert_eq!(polysite::context::Version::default().get(), "default");
    assert_eq!(polysite::context::Version::new("draft").get(), "draft");
    // the same paths build again under a different version tag
    let count = Rc::new(RefCell::new(0usize));
    let make_rule = |version: &str, count: &Rc<RefCell<usize>>| {
        polysite::rule::Rule::new("pages", CountingCompiler { count: Rc::clone(count) })
            .set_create(vec![s("a.txt")])
            .set_version(version)
    };
    let mut builder = Builder::new(test_config())
        .add_step(vec![make_rule("default", &count)])
        .add_step(vec![make_rule("draft", &count)])
        .add_step(vec![make_rule("draft", &count)]);
    assert!(builder.build().is_ok());
    assert_eq!(*count.borrow(), 2);
}

/// Wraps the library's barrier compiler so it can share a step with
/// other compilers.
struct WaitThenNoop {
    wait: WaitSnapshot,
    waited: bool,
}

impl Compiler for WaitThenNoop {
    fn next_step(&mut self, ctx: Context) -> Result<CompileStep, Error> {
        if self.waited {
            return Ok(CompileStep::Completed(ctx));
        }
        match self.wait.next_step(ctx)? {
            CompileStep::Completed(c) => {
                self.waited = true;
                Ok(CompileStep::Completed(c))
            },
            other => Ok(other),
        }
    }

    fn duplicate(&self) -> Self {
        WaitThenNoop { wait: self.wait.duplicate(), waited: false }
    }
}

enum QuickOrWaiter {
    Quick(NoopCompiler),
    Waiter(WaitThenNoop),
}

impl Compiler for QuickOrWaiter {
    fn next_step(&mut self, ctx: Context) -> Result<CompileStep, Error> {
        match self {
            QuickOrWaiter::Quick(c) => c.next_step(ctx),
            QuickOrWaiter::Waiter(c) => c.next_step(ctx),
        }
    }

    fn duplicate(&self) -> Self {
        match self {
            QuickOrWaiter::Quick(c) => QuickOrWaiter::Quick(c.duplicate()),
            QuickOrWaiter::Waiter(c) => QuickOrWaiter::Waiter(c.duplicate()),
        }
    }
}

#[test]
fn finished_rule_unblocks_waiters_without_snapshots() {
    // `quick` completes without ever snapshotting; a waiter on its
    // stage in the same step must go through once the rule finishes.
    let quick = polysite::rule::Rule::new("quick", QuickOrWaiter::Quick(NoopCompiler {}))
        .set_create(vec![s("q.txt")]);
    let waiter = polysite::rule::Rule::new(
        "follower",
        QuickOrWaiter::Waiter(WaitThenNoop { wait: WaitSnapshot::new().wait("quick", 1), waited: false }),
    )
    .set_create(vec![s("f.txt")]);
    let mut builder = Builder::new(test_config()).add_step(vec![quick, waiter]);
    assert!(builder.build().is_ok());
    assert!(builder.global().obj_get("follower").is_some());
}
