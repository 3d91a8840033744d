//! The build context handed to every compiler step: the metadata
//! store, a read view of the rule registry, and the configuration.

use crate::config::Config;
use crate::error::Error;
use crate::metadata::{
    Metadata, BODY_META, PATH_META, RULE_META, SOURCE_FILE_META, TARGET_FILE_META, VERSION_META,
};
use crate::snapshot::{reg_has, reg_index, spec_min_stage, stage_count, Registry};
use crate::metadata::VERSIONS_META;
use crate::value::{arr_view, clone_string, obj_lookup, obj_upsert, Value, ValueView};
use vstd::prelude::*;

verus! {

/// The compilation version tag.  Once a source path has been recorded
/// under a version, later scheduling of the same path under the same
/// version is skipped.
#[derive(Debug, PartialEq, Eq)]
pub struct Version {
    pub tag: String,
}

impl Version {
    pub fn new(tag: &str) -> (r: Self)
        ensures
            r.tag@ == tag@,
    {
        Version { tag: tag.to_owned() }
    }

    /// The tag string.
    pub fn get(&self) -> (r: &str)
        ensures
            r@ == self.tag@,
    {
        self.tag.as_str()
    }

    /// A copy of the tag.
    pub fn duplicate(&self) -> (r: Self)
        ensures
            r.tag@ == self.tag@,
    {
        Version { tag: clone_string(&self.tag) }
    }
}

impl Default for Version {
    /// The version used when none is set.
    fn default() -> (r: Self)
        ensures
            r.tag@ == "default"@,
    {
        Version { tag: "default".to_owned() }
    }
}

/// The working state a compiler step sees: global and local metadata,
/// the registry of rules that have begun executing, and the build
/// configuration.
pub struct Context {
    pub meta: Metadata,
    pub registry: Registry,
    pub config: Config,
    /// Set by a compiler that wants the runner to record the current
    /// local scope as a snapshot without suspending at the barrier.
    pub snapshot_requested: bool,
}

impl Context {
    pub open spec fn wf(self) -> bool {
        self.meta.wf()
    }

    pub fn new(config: Config) -> (r: Self)
        ensures
            r.wf(),
            r.meta.local.entries() == Seq::<(Seq<char>, ValueView)>::empty(),
            r.meta.global.entries() == obj_upsert(
                Seq::<(Seq<char>, ValueView)>::empty(),
                VERSIONS_META@,
                ValueView::Obj(Seq::<(Seq<char>, ValueView)>::empty()),
            ),
            r.registry.rules@.len() == 0,
            r.config == config,
            r.snapshot_requested == false,
    {
        Context {
            meta: Metadata::new(),
            registry: Registry::new(),
            config,
            snapshot_requested: false,
        }
    }

    /// Whether both scopes are objects: the shape every verified
    /// operation keeps, testable at run time by unverified callers
    /// before they write into a context.
    pub fn is_wf(&self) -> (r: bool)
        ensures
            r == self.wf(),
    {
        let g = match &self.meta.global {
            Value::Obj(_) => true,
            _ => false,
        };
        let l = match &self.meta.local {
            Value::Obj(_) => true,
            _ => false,
        };
        g && l
    }

    /// The metadata store.
    pub fn metadata(&self) -> (r: &Metadata)
        ensures
            r == &self.meta,
    {
        &self.meta
    }

    /// Upsert into the local scope.
    pub fn insert_local(&mut self, key: &str, value: Value)
        requires
            old(self).wf(),
        ensures
            final(self).wf(),
            final(self).meta.local@ == ValueView::Obj(
                obj_upsert(old(self).meta.local.entries(), key@, value@),
            ),
            final(self).meta.global == old(self).meta.global,
            final(self).registry == old(self).registry,
            final(self).config == old(self).config,
    {
        self.meta.insert_local(key, value);
    }

    /// Upsert into the global scope.
    pub fn insert_global(&mut self, key: &str, value: Value)
        requires
            old(self).wf(),
        ensures
            final(self).wf(),
            final(self).meta.global@ == ValueView::Obj(
                obj_upsert(old(self).meta.global.entries(), key@, value@),
            ),
            final(self).meta.local == old(self).meta.local,
            final(self).registry == old(self).registry,
            final(self).config == old(self).config,
    {
        self.meta.insert_global(key, value);
    }

    /// The version tag being compiled, if one is set.
    pub fn version(&self) -> (r: Option<Version>)
        ensures
            match obj_lookup(self.meta.local.entries(), VERSION_META@) {
                Some(ValueView::Str(s)) => r matches Some(v) && v.tag@ == s,
                _ => r is None,
            },
    {
        match self.meta.version() {
            Some(tag) => Some(Version { tag }),
            None => None,
        }
    }

    /// The rule name being compiled, if one is set.
    pub fn rule(&self) -> (r: Option<String>)
        ensures
            match obj_lookup(self.meta.local.entries(), RULE_META@) {
                Some(ValueView::Str(s)) => r matches Some(x) && x@ == s,
                _ => r is None,
            },
    {
        self.meta.rule()
    }

    /// The source file path being compiled, if one is set.
    pub fn source(&self) -> (r: Option<String>)
        ensures
            match obj_lookup(self.meta.local.entries(), SOURCE_FILE_META@) {
                Some(ValueView::Str(s)) => r matches Some(x) && x@ == s,
                _ => r is None,
            },
    {
        self.meta.source()
    }

    /// The target file path being compiled, if one is set.
    pub fn target(&self) -> (r: Option<String>)
        ensures
            match obj_lookup(self.meta.local.entries(), TARGET_FILE_META@) {
                Some(ValueView::Str(s)) => r matches Some(x) && x@ == s,
                _ => r is None,
            },
    {
        self.meta.target()
    }

    /// The logical URL path being compiled, if one is set.
    pub fn path(&self) -> (r: Option<String>)
        ensures
            match obj_lookup(self.meta.local.entries(), PATH_META@) {
                Some(ValueView::Str(s)) => r matches Some(x) && x@ == s,
                _ => r is None,
            },
    {
        self.meta.path()
    }

    /// The in-progress body payload, if one is set.
    pub fn body(&self) -> (r: Option<&Value>)
        ensures
            match obj_lookup(self.meta.local.entries(), BODY_META@) {
                Some(v) => r matches Some(p) && p@ == v,
                None => r is None,
            },
    {
        self.meta.body()
    }

    /// The build configuration.
    pub fn config(&self) -> (r: Config)
        ensures
            r.source_dir@ == self.config.source_dir@,
            r.target_dir@ == self.config.target_dir@,
            r.target_clean == self.config.target_clean,
    {
        self.config.duplicate()
    }

    /// Ask the task runner to record the current local scope as a
    /// snapshot after this step, without suspending at the barrier.
    pub fn request_snapshot(&mut self)
        ensures
            final(self).snapshot_requested == true,
            final(self).meta == old(self).meta,
            final(self).registry == old(self).registry,
            final(self).config == old(self).config,
    {
        self.snapshot_requested = true;
    }

    /// The named rule's latest aggregate-stage snapshots: one snapshot
    /// per task of that rule, available once every one of its tasks has
    /// taken at least one.  Asking about a rule that never began
    /// executing is an error.
    pub fn rule_snapshots(&self, rule: &str) -> (r: Result<Option<Vec<Value>>, Error>)
        ensures
            !reg_has(self.registry.rules@, rule@) ==> (r matches Err(e) && e matches
                Error::UnknownRule { rule: rv } && rv@ == rule@),
            reg_has(self.registry.rules@, rule@) ==> ({
                let st = self.registry.rules@[reg_index(self.registry.rules@, rule@)];
                match r {
                    Ok(Some(v)) => {
                        let m = spec_min_stage(st.manager.stages@);
                        &&& st.manager.stages@.len() > 0
                        &&& m > 0
                        &&& v@.len() == st.manager.stages@.len()
                        &&& (forall|i: int|
                            0 <= i < st.manager.stages@.len() ==> arr_view(#[trigger] v@)[i]
                                == arr_view(st.manager.stages@[i].metas@)[m - 1])
                    },
                    Ok(None) => st.manager.stages@.len() == 0 || spec_min_stage(
                        st.manager.stages@,
                    ) == 0,
                    Err(_) => false,
                }
            }),
    {
        match self.registry.find(rule) {
            None => Err(Error::UnknownRule { rule: rule.to_owned() }),
            Some(st) => Ok(st.manager.metadata()),
        }
    }

    /// Whether the named rule's aggregate stage has reached `until`:
    /// true once every task of that rule has taken at least `until`
    /// snapshots, or once the rule has finished.  Asking about a rule
    /// that never began executing is an error.
    pub fn rule_stage_reached(&self, rule: &str, until: usize) -> (r: Result<bool, Error>)
        ensures
            !reg_has(self.registry.rules@, rule@) ==> (r matches Err(e) && e matches
                Error::UnknownRule { rule: rv } && rv@ == rule@),
            reg_has(self.registry.rules@, rule@) ==> (r matches Ok(b) && b == ({
                let st = self.registry.rules@[reg_index(self.registry.rules@, rule@)];
                st.finished || forall|i: int|
                    0 <= i < st.manager.stages@.len() ==> crate::snapshot::stage_count(
                        st.manager.stages@,
                        i,
                    ) >= until
            })),
    {
        match self.registry.find(rule) {
            None => Err(Error::UnknownRule { rule: rule.to_owned() }),
            Some(st) => {
                if st.finished {
                    Ok(true)
                } else {
                    Ok(st.manager.reached(until))
                }
            },
        }
    }
}

} // verus!
