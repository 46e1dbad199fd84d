use vstd::prelude::*;

use crate::error::OddError;
use crate::model::entries::{insert_all, pair_view, Entries};
use crate::model::id::ObjectId;
use crate::model::object::{instant_text, structural_id_of, ContentRef, Object, ObjectKind};
use crate::model::order::chars_of;
use crate::text::string_of_chars;

verus! {

/// A graft needs at least one `entry=source` pair.
pub fn check_graft_entries(raws: &Vec<String>) -> (r: Result<(), OddError>)
    ensures
        raws@.len() > 0 ==> r is Ok,
        raws@.len() == 0 ==> r matches Err(OddError::NoGraftEntries),
{
    if raws.len() == 0 {
        Err(OddError::NoGraftEntries)
    } else {
        Ok(())
    }
}

/// `k` is where the first `=` of `s` stands.
pub open spec fn first_equals_at(s: Seq<char>, k: int) -> bool {
    &&& 0 <= k < s.len()
    &&& s[k] == '='
    &&& forall|j: int| 0 <= j < k ==> s[j] != '='
}

/// Splits an `entry=source` argument at its first `=`. The entry name must
/// not be empty; the source may hold further `=`.
pub fn parse_graft_entry(raw: &str) -> (r: Result<(String, String), OddError>)
    ensures
        (forall|j: int| 0 <= j < raw@.len() ==> raw@[j] != '=') ==> (r matches Err(
            OddError::MalformedGraftEntry { raw: e },
        ) && e@ == raw@),
        forall|k: int|
            #![trigger first_equals_at(raw@, k)]
            first_equals_at(raw@, k) ==> {
                &&& k == 0 ==> (r matches Err(OddError::EmptyEntryName { raw: e }) && e@ == raw@)
                &&& k > 0 ==> (r matches Ok((name, source)) && name@ == raw@.take(k) && source@
                    == raw@.skip(k + 1))
            },
{
    let v = chars_of(raw);
    let n = v.len();
    let mut k: usize = 0;
    while k < n && v[k] != '='
        invariant
            v@ == raw@,
            n == v@.len(),
            k <= n,
            forall|j: int| 0 <= j < k ==> raw@[j] != '=',
        decreases n - k,
    {
        k = k + 1;
    }
    if k == n {
        return Err(OddError::MalformedGraftEntry { raw: raw.to_owned() });
    }
    proof {
        assert(first_equals_at(raw@, k as int));
        assert forall|k2: int| first_equals_at(raw@, k2) implies k2 == k by {
            if k2 < k {
                assert(raw@[k2] != '=');
            }
            if k2 > k {
                assert(raw@[k as int] != '=');
            }
        }
    }
    if k == 0 {
        return Err(OddError::EmptyEntryName { raw: raw.to_owned() });
    }
    let mut name_chars: Vec<char> = Vec::new();
    let mut i: usize = 0;
    while i < k
        invariant
            v@ == raw@,
            n == v@.len(),
            i <= k < n,
            name_chars@ == raw@.take(i as int),
        decreases k - i,
    {
        name_chars.push(v[i]);
        assert(raw@.take(i + 1) =~= raw@.take(i as int).push(raw@[i as int]));
        i = i + 1;
    }
    let mut source_chars: Vec<char> = Vec::new();
    let mut j: usize = k + 1;
    while j < n
        invariant
            v@ == raw@,
            n == v@.len(),
            k + 1 <= j <= n,
            source_chars@ == raw@.subrange(k + 1, j as int),
        decreases n - j,
    {
        source_chars.push(v[j]);
        assert(raw@.subrange(k + 1, j + 1) =~= raw@.subrange(k + 1, j as int).push(raw@[j as int]));
        j = j + 1;
    }
    assert(raw@.subrange(k + 1, n as int) =~= raw@.skip(k + 1));
    Ok((string_of_chars(&name_chars), string_of_chars(&source_chars)))
}

/// A stored object is consistent in shape: a composed object holds named
/// entries, never a blob.
pub open spec fn composed_holds_entries(obj: &Object) -> bool {
    obj.kind == ObjectKind::Composed ==> obj.content is Directory
}

/// Whether a stored object is consistent in shape.
pub fn shape_is_consistent(obj: &Object) -> (b: bool)
    ensures
        b == composed_holds_entries(obj),
{
    match (&obj.kind, &obj.content) {
        (ObjectKind::Composed, ContentRef::Blob { .. }) => false,
        _ => true,
    }
}

/// The entries a `--into` target contributes. It must be a composed
/// object; its entries are copied, the object itself is left as it is.
pub fn graft_base(into: &Object, into_name: &str) -> (r: Result<Entries, OddError>)
    requires
        composed_holds_entries(into),
    ensures
        into.kind != ObjectKind::Composed ==> (r matches Err(
            OddError::IntoNotComposed { kind, target },
        ) && kind == into.kind && target@ == into_name@),
        into.kind == ObjectKind::Composed ==> (into.content matches ContentRef::Directory {
            entries,
        } && r matches Ok(e) && e@ == entries@ && e.pairs() == entries.pairs()),
{
    if into.kind != ObjectKind::Composed {
        return Err(OddError::IntoNotComposed { kind: into.kind, target: into_name.to_owned() });
    }
    match &into.content {
        ContentRef::Directory { entries } => Ok(entries.clone()),
        ContentRef::Blob { .. } => {
            proof {
                assert(false);
            }
            Err(OddError::IntoNotComposed { kind: into.kind, target: into_name.to_owned() })
        },
    }
}

/// Composes a new object from `base` and the resolved `sources`, bound in
/// order (a later entry of the same name wins). Nothing on disk is
/// touched, and no existing object changes: the result is a new composed
/// object. Refused only when the clock cannot be read.
pub fn graft(base: Entries, sources: &Vec<(String, ObjectId)>) -> (r: Result<Object, OddError>)
    ensures
        r matches Ok(o) ==> {
            &&& o.kind == ObjectKind::Composed
            &&& o.content matches ContentRef::Directory { entries } && entries@ == insert_all(
                base@,
                sources@.map_values(|p: (String, ObjectId)| pair_view(p)),
            ) && o.id@ == structural_id_of(ObjectKind::Composed, entries.pairs())
            &&& o.parents@.len() == 0
            &&& instant_text(o.created@)
        },
        r matches Err(e) ==> e is ClockUnreadable,
{
    let mut entries = base;
    entries.insert_pairs(sources);
    Object::new_composed(entries)
}

} // verus!
