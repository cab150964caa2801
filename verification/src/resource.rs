//! Files embedded in the program, and the temporary directory they are
//! copied to for a test.
use vstd::prelude::*;

verus! {

/// A file embedded in the program: where it goes and its content.
#[derive(Debug)]
pub struct Resource {
    path: String,
    pub data: String,
}

/// Mathematical model of a [`Resource`].
pub struct ResourceModel {
    pub path: Seq<char>,
    pub data: Seq<char>,
}

impl View for Resource {
    type V = ResourceModel;

    closed spec fn view(&self) -> ResourceModel {
        ResourceModel { path: self.path@, data: self.data@ }
    }
}

impl Resource {
    pub fn new(path: &str, data: &str) -> (r: Resource)
        ensures
            r@ == (ResourceModel { path: path@, data: data@ }),
    {
        Resource { path: path.to_owned(), data: data.to_owned() }
    }

    /// Where the file goes.
    pub fn path(&self) -> (r: &String)
        ensures
            r@ == self@.path,
    {
        &self.path
    }
}

/// The temporary directory of a test.
pub struct Config {
    pub tmp_dir: String,
}

} // verus!
