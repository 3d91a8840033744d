//! A rule: a name, a source-matching policy, a version tag, and the
//! compiler that drives each matched path.
//!
//! A rule matches either a set of glob patterns evaluated against the
//! source tree (directories excluded), or an explicit list of logical
//! paths to synthesize with no backing file.  Giving neither or both
//! is a configuration error.

use crate::compiler::Compiler;
use crate::config::Config;
use crate::context::Version;
use crate::error::Error;
use crate::paths::{join_path, spec_join};
use crate::value::clone_string;
use vstd::prelude::*;

verus! {

pub struct Rule<C> {
    pub name: String,
    pub globs: Option<Vec<String>>,
    pub creates: Option<Vec<String>>,
    pub version: Version,
    pub compiler: C,
}

/// A rule names exactly one matching policy: glob patterns or an
/// explicit creation list, not neither and not both.
pub open spec fn policy_ok<C>(r: Rule<C>) -> bool {
    (r.globs is Some) != (r.creates is Some)
}

/// Relies on glob::glob: expands the pattern against the filesystem
/// and yields the matched paths.  What comes back depends on the disk;
/// nothing is assumed of it.  A malformed pattern or an unreadable
/// directory is a rule error.
#[verifier::external_body]
fn glob_paths(pattern: &str) -> (r: Result<Vec<String>, Error>)
    ensures
        r matches Err(e) ==> e is InvalidRule,
{
    match glob::glob(pattern) {
        Err(_) => Err(Error::InvalidRule),
        Ok(paths) => match paths.map(|p| p.map(|q| q.to_string_lossy().to_string())).collect::<
            Result<Vec<String>, glob::GlobError>,
        >() {
            Ok(v) => Ok(v),
            Err(_) => Err(Error::InvalidRule),
        },
    }
}

/// Relies on std::path::Path::is_file: whether the path names an
/// existing regular file.  The answer depends on the disk; nothing is
/// assumed of it.
#[verifier::external_body]
fn path_is_file(path: &str) -> bool {
    std::path::Path::new(path).is_file()
}

impl<C: Compiler> Rule<C> {
    /// A rule with the given name and compiler, the default version,
    /// and no matching policy yet.
    pub fn new(name: &str, compiler: C) -> (r: Self)
        ensures
            r.name@ == name@,
            r.globs is None,
            r.creates is None,
            r.version.tag@ == "default"@,
            r.compiler == compiler,
    {
        Rule {
            name: name.to_owned(),
            globs: None,
            creates: None,
            version: Version::default(),
            compiler,
        }
    }

    /// This rule's name.
    pub fn get_name(&self) -> (r: &str)
        ensures
            r@ == self.name@,
    {
        self.name.as_str()
    }

    /// Match the glob patterns, evaluated against the source tree.
    pub fn set_globs(self, globs: Vec<String>) -> (r: Self)
        ensures
            r.globs matches Some(g) && g == globs,
            r.creates == self.creates,
            r.name == self.name,
            r.version == self.version,
            r.compiler == self.compiler,
    {
        Rule { globs: Some(globs), ..self }
    }

    /// Synthesize the listed paths with no backing file.
    pub fn set_create(self, creates: Vec<String>) -> (r: Self)
        ensures
            r.creates matches Some(c) && c == creates,
            r.globs == self.globs,
            r.name == self.name,
            r.version == self.version,
            r.compiler == self.compiler,
    {
        Rule { creates: Some(creates), ..self }
    }

    /// Set the compilation version tag.
    pub fn set_version(self, version: &str) -> (r: Self)
        ensures
            r.version.tag@ == version@,
            r.globs == self.globs,
            r.creates == self.creates,
            r.name == self.name,
            r.compiler == self.compiler,
    {
        Rule { version: Version::new(version), ..self }
    }

    /// The candidate source paths of this rule.  An explicit creation
    /// list resolves to the listed paths under the source directory; a
    /// glob set resolves to whatever existing files the patterns match
    /// on disk.  A rule with neither or both policies is rejected.
    #[verifier::loop_isolation(false)]
    pub fn resolve_paths(&self, config: &Config) -> (r: Result<Vec<String>, Error>)
        ensures
            r matches Err(e) ==> e is InvalidRule,
            !policy_ok(*self) ==> r is Err,
            r is Ok ==> policy_ok(*self),
            self.globs is None ==> match self.creates {
                Some(cs) => r matches Ok(v) && v@.len() == cs@.len() && forall|i: int|
                    0 <= i < cs@.len() ==> (#[trigger] v@[i])@ == spec_join(
                        config.source_dir@,
                        cs@[i]@,
                    ),
                None => r matches Err(e) && e is InvalidRule,
            },
    {
        match (&self.globs, &self.creates) {
            (Some(globs), None) => {
                let mut out: Vec<String> = Vec::new();
                let mut i: usize = 0;
                while i < globs.len()
                    decreases globs@.len() - i,
                {
                    let pattern = join_path(config.source_dir.as_str(), globs[i].as_str());
                    match glob_paths(pattern.as_str()) {
                        Err(e) => {
                            return Err(e);
                        },
                        Ok(paths) => {
                            let mut j: usize = 0;
                            while j < paths.len()
                                decreases paths@.len() - j,
                            {
                                if path_is_file(paths[j].as_str()) {
                                    out.push(clone_string(&paths[j]));
                                }
                                j = j + 1;
                            }
                        },
                    }
                    i = i + 1;
                }
                Ok(out)
            },
            (None, Some(creates)) => {
                let mut out: Vec<String> = Vec::new();
                let mut i: usize = 0;
                while i < creates.len()
                    invariant
                        i <= creates@.len(),
                        out@.len() == i,
                        forall|j: int| 0 <= j < i ==> (#[trigger] out@[j])@ == spec_join(
                            config.source_dir@,
                            creates@[j]@,
                        ),
                    decreases creates@.len() - i,
                {
                    out.push(join_path(config.source_dir.as_str(), creates[i].as_str()));
                    i = i + 1;
                }
                Ok(out)
            },
            _ => Err(Error::InvalidRule),
        }
    }
}

} // verus!
