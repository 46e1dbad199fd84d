use vstd::prelude::*;

use crate::error::OddError;
use crate::model::object::ContentRef;
use crate::storage::binding::Binding;

verus! {

/// Where a binding restores to when no destination is given: the original
/// path recorded on the binding itself, never anything on the object.
pub open spec fn recorded_destination(binding: Option<Binding>) -> Option<Seq<char>> {
    match binding {
        Some(b) => match b.original_path {
            Some(p) => Some(p@),
            None => None,
        },
        None => None,
    }
}

/// The destination of a resurrection: `--dest` when given, else the
/// original path of the binding the target resolved through.
pub fn resurrect_destination(target: &str, dest: Option<String>, binding: Option<Binding>) -> (r:
    Result<String, OddError>)
    ensures
        dest matches Some(d) ==> (r matches Ok(p) && p@ == d@),
        dest is None ==> match recorded_destination(binding) {
            Some(p) => (r matches Ok(q) && q@ == p),
            None => (r matches Err(OddError::NoDestination { target: t }) && t@ == target@),
        },
{
    match dest {
        Some(d) => Ok(d),
        None => match binding {
            Some(b) => match b.original_path {
                Some(p) => Ok(p),
                None => Err(OddError::NoDestination { target: target.to_owned() }),
            },
            None => Err(OddError::NoDestination { target: target.to_owned() }),
        },
    }
}

/// Whether content may be written at `dest`, given whether something
/// exists there and whether that is a directory. A blob is guarded by
/// `force` like any single-file write. Directory content may always
/// descend into an existing directory (the leaves are checked one by one),
/// but never into something that is not a directory.
pub fn check_destination(content: &ContentRef, dest: &str, exists: bool, is_dir: bool, force: bool) -> (r:
    Result<(), OddError>)
    ensures
        content is Blob ==> (exists && !force ==> (r matches Err(OddError::DestinationExists { dest: d })
            && d@ == dest@)) && (!(exists && !force) ==> r is Ok),
        content is Directory ==> (exists && !is_dir ==> (r matches Err(
            OddError::DestinationNotDirectory { dest: d },
        ) && d@ == dest@)) && (!(exists && !is_dir) ==> r is Ok),
{
    match content {
        ContentRef::Blob { .. } => {
            if exists && !force {
                Err(OddError::DestinationExists { dest: dest.to_owned() })
            } else {
                Ok(())
            }
        },
        ContentRef::Directory { .. } => {
            if exists && !is_dir {
                Err(OddError::DestinationNotDirectory { dest: dest.to_owned() })
            } else {
                Ok(())
            }
        },
    }
}

/// Each binding of a deduplicated object resurrects to its own recorded
/// path: two bindings of one object with different original paths get
/// different default destinations.
pub proof fn lemma_each_binding_keeps_its_own_path(a: Binding, b: Binding)
    requires
        a.object_id@ == b.object_id@,
        a.original_path is Some,
        b.original_path is Some,
        a.original_path.unwrap()@ != b.original_path.unwrap()@,
    ensures
        recorded_destination(Some(a)) == Some(a.original_path.unwrap()@),
        recorded_destination(Some(b)) == Some(b.original_path.unwrap()@),
        recorded_destination(Some(a)) != recorded_destination(Some(b)),
{
}

} // verus!
