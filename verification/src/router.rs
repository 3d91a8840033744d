//! The routing capability: a pure map from a source path to its
//! target path, supplied by the build description.

use crate::paths::{spec_with_extension, with_extension};
use vstd::prelude::*;

verus! {

/// A route from a source path to a target path.
pub trait Router: Sized {
    fn route(&self, p: String) -> String;
}

/// The router that replaces the path's extension by a fixed one.
pub struct SetExtRouter {
    pub ext: String,
}

impl SetExtRouter {
    pub fn new(ext: &str) -> (r: Self)
        ensures
            r.ext@ == ext@,
    {
        SetExtRouter { ext: ext.to_owned() }
    }
}

impl Router for SetExtRouter {
    fn route(&self, p: String) -> (r: String)
        ensures
            r@ == spec_with_extension(p@, self.ext@),
    {
        with_extension(p.as_str(), self.ext.as_str())
    }
}

} // verus!
