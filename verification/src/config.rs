//! Build configuration: where sources live, where targets go, and
//! whether the target tree should be cleaned before a build.

use crate::value::clone_string;
use vstd::prelude::*;

verus! {

pub struct Config {
    pub source_dir: String,
    pub target_dir: String,
    pub target_clean: bool,
}

impl Config {
    /// Get the source directory.
    pub fn source_dir(&self) -> (r: String)
        ensures
            r@ == self.source_dir@,
    {
        clone_string(&self.source_dir)
    }

    /// Set the source directory.
    pub fn set_source_dir(self, path: &str) -> (r: Self)
        ensures
            r.source_dir@ == path@,
            r.target_dir == self.target_dir,
            r.target_clean == self.target_clean,
    {
        Config { source_dir: path.to_owned(), ..self }
    }

    /// Get the target directory.
    pub fn target_dir(&self) -> (r: String)
        ensures
            r@ == self.target_dir@,
    {
        clone_string(&self.target_dir)
    }

    /// Set the target directory.
    pub fn set_target_dir(self, path: &str) -> (r: Self)
        ensures
            r.target_dir@ == path@,
            r.source_dir == self.source_dir,
            r.target_clean == self.target_clean,
    {
        Config { target_dir: path.to_owned(), ..self }
    }

    /// Get the clean-target-before-build flag.
    pub fn target_clean(&self) -> (r: bool)
        ensures
            r == self.target_clean,
    {
        self.target_clean
    }

    /// Set the clean-target-before-build flag.
    pub fn set_target_clean(self, clean: bool) -> (r: Self)
        ensures
            r.target_clean == clean,
            r.source_dir == self.source_dir,
            r.target_dir == self.target_dir,
    {
        Config { target_clean: clean, ..self }
    }

    /// A copy of this configuration.
    pub fn duplicate(&self) -> (r: Self)
        ensures
            r.source_dir@ == self.source_dir@,
            r.target_dir@ == self.target_dir@,
            r.target_clean == self.target_clean,
    {
        Config {
            source_dir: clone_string(&self.source_dir),
            target_dir: clone_string(&self.target_dir),
            target_clean: self.target_clean,
        }
    }
}

impl Default for Config {
    /// The conventional layout: sources in `site`, targets in `dist`,
    /// and the target tree cleaned before each build.
    fn default() -> (r: Self)
        ensures
            r.source_dir@ == "site"@,
            r.target_dir@ == "dist"@,
            r.target_clean == true,
    {
        Config {
            source_dir: "site".to_owned(),
            target_dir: "dist".to_owned(),
            target_clean: true,
        }
    }
}

} // verus!
