//! The two-scope metadata store: a build-wide global object and a
//! per-task local object.  Lookups try the local scope first and fall
//! back to the global one; writes are key-level upserts.

use crate::value::{
    clone_string, obj_lookup, obj_upsert, spec_merge, merge_values, Value, ValueView,
};
use vstd::prelude::*;

verus! {

/// Key of the rule name in the local scope.
pub const RULE_META: &'static str = "_rule";

/// Key of the version tag in the local scope.
pub const VERSION_META: &'static str = "_version";

/// Key of the source file path in the local scope.
pub const SOURCE_FILE_META: &'static str = "_source";

/// Key of the target file path in the local scope.
pub const TARGET_FILE_META: &'static str = "_target";

/// Key of the logical URL path in the local scope.
pub const PATH_META: &'static str = "_path";

/// Key of the in-progress body payload in the local scope.
pub const BODY_META: &'static str = "_body";

/// Key of the version ledger in the global scope.
pub const VERSIONS_META: &'static str = "_versions";

pub struct Metadata {
    pub global: Value,
    pub local: Value,
}

impl Metadata {
    /// Both scopes are objects.
    pub open spec fn wf(self) -> bool {
        self.global@ is Obj && self.local@ is Obj
    }

    /// A fresh store: an empty local scope, and a global scope that
    /// holds an empty version ledger.
    pub fn new() -> (r: Self)
        ensures
            r.wf(),
            r.local.entries() == Seq::<(Seq<char>, ValueView)>::empty(),
            r.global.entries() == obj_upsert(
                Seq::<(Seq<char>, ValueView)>::empty(),
                VERSIONS_META@,
                ValueView::Obj(Seq::<(Seq<char>, ValueView)>::empty()),
            ),
    {
        let mut global = Value::empty_obj();
        global.obj_insert(VERSIONS_META, Value::empty_obj());
        Metadata { global, local: Value::empty_obj() }
    }

    /// The local scope.
    pub fn local(&self) -> (r: &Value)
        ensures
            r == &self.local,
    {
        &self.local
    }

    /// The global scope.
    pub fn global(&self) -> (r: &Value)
        ensures
            r == &self.global,
    {
        &self.global
    }

    /// Local-then-global lookup; an absent key returns nothing.
    pub fn get(&self, key: &str) -> (r: Option<Value>)
        ensures
            match obj_lookup(self.local.entries(), key@) {
                Some(v) => r matches Some(x) && x@ == v,
                None => match obj_lookup(self.global.entries(), key@) {
                    Some(v) => r matches Some(x) && x@ == v,
                    None => r is None,
                },
            },
    {
        match self.local.obj_get(key) {
            Some(v) => Some(v.duplicate()),
            None => match self.global.obj_get(key) {
                Some(v) => Some(v.duplicate()),
                None => None,
            },
        }
    }

    /// Upsert into the global scope.
    pub fn insert_global(&mut self, key: &str, value: Value)
        requires
            old(self).wf(),
        ensures
            final(self).wf(),
            final(self).global@ == ValueView::Obj(
                obj_upsert(old(self).global.entries(), key@, value@),
            ),
            final(self).local == old(self).local,
    {
        self.global.obj_insert(key, value);
    }

    /// Upsert into the local scope.
    pub fn insert_local(&mut self, key: &str, value: Value)
        requires
            old(self).wf(),
        ensures
            final(self).wf(),
            final(self).local@ == ValueView::Obj(
                obj_upsert(old(self).local.entries(), key@, value@),
            ),
            final(self).global == old(self).global,
    {
        self.local.obj_insert(key, value);
    }

    /// Deep-merge the other store's local scope into this one's.
    pub fn merge(&mut self, other: Metadata)
        ensures
            final(self).local@ == spec_merge(old(self).local@, other.local@),
            final(self).global == old(self).global,
    {
        merge_values(&mut self.local, other.local);
    }

    /// A copy of both scopes.
    pub fn duplicate(&self) -> (r: Self)
        ensures
            r.global@ == self.global@,
            r.local@ == self.local@,
    {
        Metadata { global: self.global.duplicate(), local: self.local.duplicate() }
    }

    /// The string under `key` in the local scope, if any.
    pub fn get_local_str(&self, key: &str) -> (r: Option<String>)
        ensures
            match obj_lookup(self.local.entries(), key@) {
                Some(ValueView::Str(s)) => r matches Some(x) && x@ == s,
                _ => r is None,
            },
    {
        match self.local.obj_get(key) {
            Some(v) => match v.as_str() {
                Some(s) => Some(clone_string(s)),
                None => None,
            },
            None => None,
        }
    }

    /// The version tag being compiled, if one is set.
    pub fn version(&self) -> (r: Option<String>)
        ensures
            match obj_lookup(self.local.entries(), VERSION_META@) {
                Some(ValueView::Str(s)) => r matches Some(x) && x@ == s,
                _ => r is None,
            },
    {
        self.get_local_str(VERSION_META)
    }

    /// The rule name being compiled, if one is set.
    pub fn rule(&self) -> (r: Option<String>)
        ensures
            match obj_lookup(self.local.entries(), RULE_META@) {
                Some(ValueView::Str(s)) => r matches Some(x) && x@ == s,
                _ => r is None,
            },
    {
        self.get_local_str(RULE_META)
    }

    /// The source file path being compiled, if one is set.
    pub fn source(&self) -> (r: Option<String>)
        ensures
            match obj_lookup(self.local.entries(), SOURCE_FILE_META@) {
                Some(ValueView::Str(s)) => r matches Some(x) && x@ == s,
                _ => r is None,
            },
    {
        self.get_local_str(SOURCE_FILE_META)
    }

    /// The target file path being compiled, if one is set.
    pub fn target(&self) -> (r: Option<String>)
        ensures
            match obj_lookup(self.local.entries(), TARGET_FILE_META@) {
                Some(ValueView::Str(s)) => r matches Some(x) && x@ == s,
                _ => r is None,
            },
    {
        self.get_local_str(TARGET_FILE_META)
    }

    /// The logical URL path being compiled, if one is set.
    pub fn path(&self) -> (r: Option<String>)
        ensures
            match obj_lookup(self.local.entries(), PATH_META@) {
                Some(ValueView::Str(s)) => r matches Some(x) && x@ == s,
                _ => r is None,
            },
    {
        self.get_local_str(PATH_META)
    }

    /// The in-progress body payload, if one is set.
    pub fn body(&self) -> (r: Option<&Value>)
        ensures
            match obj_lookup(self.local.entries(), BODY_META@) {
                Some(v) => r matches Some(p) && p@ == v,
                None => r is None,
            },
    {
        self.local.obj_get(BODY_META)
    }
}

} // verus!
