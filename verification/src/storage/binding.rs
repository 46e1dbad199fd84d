use vstd::prelude::*;

use crate::model::id::ObjectId;

verus! {

/// A binding: name to object, plus the facts that belong to this binding
/// rather than to the shared object. Two names bound to one deduplicated
/// object each keep their own original path, mode and mtime.
#[derive(Debug)]
pub struct Binding {
    pub namespace_id: String,
    pub name: String,
    pub object_id: ObjectId,
    pub original_path: Option<String>,
    pub mode: Option<u32>,
    pub mtime: Option<i64>,
}

pub open spec fn same_text(a: Option<String>, b: Option<String>) -> bool {
    match (a, b) {
        (Some(x), Some(y)) => x@ == y@,
        (None, None) => true,
        _ => false,
    }
}

fn clone_text(a: &Option<String>) -> (b: Option<String>)
    ensures
        same_text(*a, b),
{
    match a {
        Some(x) => Some(x.clone()),
        None => None,
    }
}

impl Binding {
    /// A binding for an object that was never on disk as such (a graft or
    /// an ungraft result): no original path, mode or mtime to record.
    pub fn unplaced(namespace_id: String, name: String, object_id: ObjectId) -> (b: Binding)
        ensures
            b.namespace_id@ == namespace_id@,
            b.name@ == name@,
            b.object_id@ == object_id@,
            b.original_path is None,
            b.mode is None,
            b.mtime is None,
    {
        Binding { namespace_id, name, object_id, original_path: None, mode: None, mtime: None }
    }
}

impl Clone for Binding {
    fn clone(&self) -> (r: Self)
        ensures
            r.namespace_id@ == self.namespace_id@,
            r.name@ == self.name@,
            r.object_id@ == self.object_id@,
            same_text(r.original_path, self.original_path),
            r.mode == self.mode,
            r.mtime == self.mtime,
    {
        Binding {
            namespace_id: self.namespace_id.clone(),
            name: self.name.clone(),
            object_id: self.object_id.clone(),
            original_path: clone_text(&self.original_path),
            mode: self.mode,
            mtime: self.mtime,
        }
    }
}

} // verus!
