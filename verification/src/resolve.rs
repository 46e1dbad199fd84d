use vstd::prelude::*;

use crate::error::OddError;
use crate::model::id::{id_shaped, ObjectId};
use crate::storage::binding::Binding;

verus! {

/// The one place a target string turns into an object id. A target that
/// is exactly id-shaped is the id itself; anything else is a name, looked
/// up in the namespace. `found` is the binding the namespace holds under
/// `target`, if any (it is not consulted for an id-shaped target). The
/// binding comes back too when the id came through a name, since some
/// callers need its recorded facts, not only the id.
pub fn resolve(namespace_id: &str, target: &str, found: Option<Binding>) -> (r: Result<
    (ObjectId, Option<Binding>),
    OddError,
>)
    ensures
        id_shaped(target@) ==> (r matches Ok((id, b)) && id@ == target@ && b is None),
        !id_shaped(target@) ==> match found {
            Some(f) => (r matches Ok((id, b)) && id@ == f.object_id@ && b == Some(f)),
            None => (r matches Err(OddError::NotRemembered { namespace_id: n, target: t }) && n@
                == namespace_id@ && t@ == target@),
        },
{
    if ObjectId::looks_like_id(target) {
        Ok((ObjectId(target.to_owned()), None))
    } else {
        match found {
            Some(binding) => {
                let id = binding.object_id.clone();
                Ok((id, Some(binding)))
            },
            None => Err(
                OddError::NotRemembered {
                    namespace_id: namespace_id.to_owned(),
                    target: target.to_owned(),
                },
            ),
        }
    }
}

} // verus!
