use vstd::prelude::*;

use crate::index::IndexHandle;
use crate::resource_node::{RawResourceHandle, ResourceNode};

verus! {

/// One recorded pass: its declared reads and writes, the request and release
/// sets the compiler fills in, and the body of commands to run.
pub struct PassNode {
    pub name: String,
    pub index: usize,
    pub writes: Vec<RawResourceHandle>,
    pub reads: Vec<RawResourceHandle>,
    pub resource_request_array: Vec<IndexHandle<ResourceNode>>,
    pub resource_release_array: Vec<IndexHandle<ResourceNode>>,
    pub pass: Option<crate::pass::Pass>,
}

impl PassNode {
    pub fn new(name: &str, index: IndexHandle<PassNode>) -> (r: Self)
        ensures
            r.name@ == name@,
            r.index == index.index,
            r.writes@.len() == 0,
            r.reads@.len() == 0,
            r.resource_request_array@.len() == 0,
            r.resource_release_array@.len() == 0,
            r.pass is None,
    {
        Self {
            name: name.to_owned(),
            index: index.index,
            writes: Vec::new(),
            reads: Vec::new(),
            resource_request_array: Vec::new(),
            resource_release_array: Vec::new(),
            pass: None,
        }
    }
}

} // verus!
