use vstd::prelude::*;

use crate::commands::graft::composed_holds_entries;
use crate::error::OddError;
use crate::model::entries::{lemma_entries_canonical, Entries};
use crate::model::object::{instant_text, structural_id_of, ContentRef, Object, ObjectKind};

verus! {

/// Removes `entry` from a composed object. Objects are immutable, so the
/// result is a new composed object without that entry; `base` is left as
/// it is. Refused, besides, when the clock cannot be read.
pub fn ungraft(base: &Object, composed_name: &str, entry: &str) -> (r: Result<Object, OddError>)
    requires
        composed_holds_entries(base),
    ensures
        base.kind != ObjectKind::Composed ==> (r matches Err(OddError::UngraftNotComposed { kind, target })
            && kind == base.kind && target@ == composed_name@),
        base.kind == ObjectKind::Composed ==> (base.content matches ContentRef::Directory { entries }
            && {
            &&& !entries@.contains_key(entry@) ==> (r matches Err(
                OddError::NoSuchEntry { entry: e, composed: c },
            ) && e@ == entry@ && c@ == composed_name@)
            &&& entries@.contains_key(entry@) ==> (match r {
                Ok(o) => {
                    &&& o.kind == ObjectKind::Composed
                    &&& o.parents@.len() == 0
                    &&& instant_text(o.created@)
                    &&& (o.content matches ContentRef::Directory { entries: rest } && rest@
                        == entries@.remove(entry@) && o.id@ == structural_id_of(
                        ObjectKind::Composed,
                        rest.pairs(),
                    ))
                },
                Err(e) => e is ClockUnreadable,
            })
        }),
{
    if base.kind != ObjectKind::Composed {
        return Err(OddError::UngraftNotComposed { kind: base.kind, target: composed_name.to_owned() });
    }
    let mut entries: Entries = match &base.content {
        ContentRef::Directory { entries } => entries.clone(),
        ContentRef::Blob { .. } => {
            proof {
                assert(false);
            }
            return Err(OddError::UngraftNotComposed { kind: base.kind, target: composed_name.to_owned() });
        },
    };
    match entries.remove(entry) {
        None => Err(
            OddError::NoSuchEntry { entry: entry.to_owned(), composed: composed_name.to_owned() },
        ),
        Some(_) => Object::new_composed(entries),
    }
}

/// The name an ungraft result is bound to: `--as` when given, else the
/// composed object's own name, so that by default ungraft reads like an
/// edit of that name.
pub fn ungraft_target_name(composed_name: &str, as_name: Option<String>) -> (n: String)
    ensures
        as_name matches Some(a) ==> n@ == a@,
        as_name is None ==> n@ == composed_name@,
{
    match as_name {
        Some(a) => a,
        None => composed_name.to_owned(),
    }
}

/// Ungrafting an entry that a graft just added gives back the object the
/// graft started from: the same entries, hence the same id.
pub proof fn lemma_ungraft_undoes_graft(
    base: Entries,
    grafted: Entries,
    ungrafted: Entries,
    name: Seq<char>,
    id: Seq<char>,
)
    requires
        base.wf(),
        ungrafted.wf(),
        !base@.contains_key(name),
        grafted@ == base@.insert(name, id),
        ungrafted@ == grafted@.remove(name),
    ensures
        ungrafted@ == base@,
        ungrafted.pairs() == base.pairs(),
        structural_id_of(ObjectKind::Composed, ungrafted.pairs()) == structural_id_of(
            ObjectKind::Composed,
            base.pairs(),
        ),
{
    assert(ungrafted@ =~= base@);
    lemma_entries_canonical(ungrafted, base);
}

} // verus!
