use vstd::prelude::*;

use crate::error::OddError;
use crate::model::digest::{content_hash, sha256_hex};
use crate::model::entries::{distinct_names, insert_all, Entries, PairView};
use crate::model::id::{id_shaped, ObjectId};

verus! {

/// What an object is. A file is addressed by its blob hash; directories
/// and composed objects by their structure.
#[derive(Debug, Clone, Copy, PartialEq, Eq, Structural)]
pub enum ObjectKind {
    File,
    Directory,
    Composed,
}

/// What an object holds: a blob, or named children.
#[derive(Debug)]
pub enum ContentRef {
    Blob { hash: String },
    Directory { entries: Entries },
}

/// Content only. No original path, no mtime, no mode: those belong to a
/// binding, so an object shared by two bindings never has to choose whose
/// metadata wins.
#[derive(Debug)]
pub struct Object {
    pub id: ObjectId,
    pub kind: ObjectKind,
    pub content: ContentRef,
    pub parents: Vec<ObjectId>,
    /// When the object was made, as RFC 3339 text.
    pub created: String,
}

/// The first line of a structural preimage: the kind's name and a newline.
pub open spec fn kind_prefix(kind: ObjectKind) -> Seq<char> {
    match kind {
        ObjectKind::Directory => seq!['d', 'i', 'r', 'e', 'c', 't', 'o', 'r', 'y', '\n'],
        ObjectKind::Composed => seq!['c', 'o', 'm', 'p', 'o', 's', 'e', 'd', '\n'],
        ObjectKind::File => Seq::empty(),
    }
}

/// One line per entry, in name order: the name, a NUL, the child id, a
/// newline.
pub open spec fn entries_preimage(s: Seq<PairView>) -> Seq<char>
    decreases s.len(),
{
    if s.len() == 0 {
        Seq::empty()
    } else {
        entries_preimage(s.drop_last()) + s.last().0 + seq!['\0'] + s.last().1 + seq!['\n']
    }
}

/// The text whose hash is a structural id.
pub open spec fn structural_preimage(kind: ObjectKind, s: Seq<PairView>) -> Seq<char> {
    kind_prefix(kind) + entries_preimage(s)
}

/// Structural identity: the hash of kind and sorted children only.
pub open spec fn structural_id_of(kind: ObjectKind, s: Seq<PairView>) -> Seq<char> {
    content_hash(vstd::utf8::encode_utf8(structural_preimage(kind, s)))
}

/// The UTC RFC 3339 text of a stored timestamp as `chrono` reads and
/// writes it, or the message of `chrono`'s parse error for text that is
/// not RFC 3339.
pub uninterp spec fn rfc3339_as_utc(text: Seq<char>) -> Result<Seq<char>, Seq<char>>;

/// Text that `chrono` writes for some instant: what a creation time is.
pub open spec fn instant_text(text: Seq<char>) -> bool {
    exists|secs: i64, nanos: u32| #[trigger] rfc3339_at(secs, nanos) == Some(text)
}

/// Calls `chrono::DateTime::parse_from_rfc3339`; on success converts the
/// time to UTC with `with_timezone(&Utc)` and writes it back with
/// `to_rfc3339`, on failure renders the parse error with `to_string`.
/// Trusted: the outcome is the named function `rfc3339_as_utc` of the
/// text; what that function is on given text is not stated.
#[verifier::external_body]
fn reformat_rfc3339(text: &str) -> (r: Result<String, String>)
    ensures
        match r {
            Ok(s) => rfc3339_as_utc(text@) == Ok::<Seq<char>, Seq<char>>(s@),
            Err(m) => rfc3339_as_utc(text@) == Err::<Seq<char>, Seq<char>>(m@),
        },
{
    match chrono::DateTime::parse_from_rfc3339(text) {
        Ok(t) => Ok(t.with_timezone(&chrono::Utc).to_rfc3339()),
        Err(e) => Err(e.to_string()),
    }
}

/// Reads the system clock as the time elapsed since 1970, with
/// `std::time::UNIX_EPOCH.elapsed()`, split into whole seconds and the
/// nanoseconds past them (`as_secs`, `subsec_nanos`). `None` when the clock
/// reads before 1970; the call does not panic. The time is whatever the
/// clock says, so only what `Duration` guarantees is stated: the
/// nanoseconds are less than a second.
#[verifier::external_body]
fn seconds_since_epoch() -> (r: Option<(u64, u32)>)
    ensures
        r matches Some((secs, nanos)) ==> nanos < 1_000_000_000,
{
    match std::time::UNIX_EPOCH.elapsed() {
        Ok(d) => Some((d.as_secs(), d.subsec_nanos())),
        Err(_) => None,
    }
}

/// The UTC RFC 3339 text `chrono` writes for the instant `secs` seconds
/// and `nanos` nanoseconds after 1970, or `None` where `chrono` has no
/// such instant.
pub uninterp spec fn rfc3339_at(secs: i64, nanos: u32) -> Option<Seq<char>>;

/// Calls `chrono::DateTime::from_timestamp(secs, nanos)` and writes the
/// instant it gives with `to_rfc3339`; `None` where `from_timestamp` gives
/// none. Neither call panics. Trusted: the outcome is the named function
/// `rfc3339_at` of the two numbers; what it is on given numbers is not
/// stated.
#[verifier::external_body]
fn utc_rfc3339_at(secs: i64, nanos: u32) -> (r: Option<String>)
    ensures
        match r {
            Some(t) => rfc3339_at(secs, nanos) == Some(t@),
            None => rfc3339_at(secs, nanos) is None,
        },
{
    match chrono::DateTime::from_timestamp(secs, nanos) {
        Some(t) => Some(t.to_rfc3339()),
        None => None,
    }
}

/// The creation time for the instant `secs` seconds and `nanos`
/// nanoseconds after 1970: the UTC RFC 3339 text `chrono` writes for it,
/// with the seconds taken as `i64` (wrapping, as `as` does). An instant
/// `chrono` cannot represent is refused.
pub fn time_text_at(secs: u64, nanos: u32) -> (r: Result<String, OddError>)
    ensures
        match rfc3339_at(secs as i64, nanos) {
            Some(t) => r matches Ok(s) && s@ == t,
            None => r matches Err(OddError::ClockUnreadable),
        },
{
    match utc_rfc3339_at(secs as i64, nanos) {
        Some(t) => Ok(t),
        None => Err(OddError::ClockUnreadable),
    }
}

/// Reads the system clock once and gives the reading (`None` when it reads
/// before 1970) together with the creation time for exactly that reading:
/// the text `chrono` writes for that instant, refused where `chrono` has
/// none.
pub fn read_creation_time() -> (r: (Option<(u64, u32)>, Result<String, OddError>))
    ensures
        match r.0 {
            Some((secs, nanos)) => {
                &&& nanos < 1_000_000_000
                &&& match rfc3339_at(secs as i64, nanos) {
                    Some(t) => r.1 matches Ok(s) && s@ == t,
                    None => r.1 matches Err(OddError::ClockUnreadable),
                }
            },
            None => r.1 matches Err(OddError::ClockUnreadable),
        },
{
    let reading = seconds_since_epoch();
    match reading {
        Some((secs, nanos)) => (reading, time_text_at(secs, nanos)),
        None => (reading, Err(OddError::ClockUnreadable)),
    }
}

/// The creation time for a new object, from the system clock: the text
/// `chrono` writes for the current instant; refused when the clock reads
/// before 1970 or outside `chrono`'s range.
pub fn creation_time() -> (r: Result<String, OddError>)
    ensures
        r matches Ok(s) ==> instant_text(s@),
        r matches Err(e) ==> e is ClockUnreadable,
{
    let (reading, r) = read_creation_time();
    proof {
        if let Some((secs, nanos)) = reading {
            if r is Ok {
                assert(rfc3339_at(secs as i64, nanos) is Some);
            }
        }
    }
    r
}

/// Reads back a stored creation time: RFC 3339 text, given back in UTC.
/// Anything else is refused with the parse error's message.
pub fn created_from_stored(text: &str) -> (r: Result<String, OddError>)
    ensures
        match rfc3339_as_utc(text@) {
            Ok(t) => r matches Ok(s) && s@ == t,
            Err(m) => r matches Err(OddError::BadTimestamp { text: e, reason }) && e@ == text@
                && reason@ == m,
        },
{
    stored_time_or_refused(text, reformat_rfc3339(text))
}

/// The stored creation time, given what reading `text` as RFC 3339 gave:
/// the UTC text on success, a refusal naming `text` and the reason
/// otherwise.
pub fn stored_time_or_refused(text: &str, reformatted: Result<String, String>) -> (r: Result<
    String,
    OddError,
>)
    ensures
        match reformatted {
            Ok(t) => r matches Ok(s) && s@ == t@,
            Err(m) => r matches Err(OddError::BadTimestamp { text: e, reason }) && e@ == text@
                && reason@ == m@,
        },
{
    match reformatted {
        Ok(s) => Ok(s),
        Err(m) => Err(OddError::BadTimestamp { text: text.to_owned(), reason: m }),
    }
}

fn kind_prefix_text(kind: ObjectKind) -> (s: String)
    requires
        kind != ObjectKind::File,
    ensures
        s@ == kind_prefix(kind),
{
    match kind {
        ObjectKind::Directory => {
            proof {
                reveal_strlit("directory\n");
            }
            "directory\n".to_owned()
        },
        _ => {
            proof {
                reveal_strlit("composed\n");
            }
            "composed\n".to_owned()
        },
    }
}

/// The text a structural id hashes: the kind's line, then one line per
/// entry in name order (name, NUL, child id, newline).
pub fn structural_preimage_text(kind: ObjectKind, entries: &Entries) -> (buf: String)
    requires
        kind != ObjectKind::File,
    ensures
        buf@ == structural_preimage(kind, entries.pairs()),
{
    let mut buf = kind_prefix_text(kind);
    let n = entries.len();
    let mut i: usize = 0;
    proof {
        assert(entries.pairs().take(0) =~= Seq::<PairView>::empty());
    }
    while i < n
        invariant
            n == entries.pairs().len(),
            i <= n,
            buf@ == kind_prefix(kind) + entries_preimage(entries.pairs().take(i as int)),
        decreases n - i,
    {
        let ghost before = buf@;
        buf.append(entries.name_at(i).as_str());
        buf.append("\0");
        buf.append(entries.id_at(i).as_str());
        buf.append("\n");
        proof {
            reveal_strlit("\0");
            reveal_strlit("\n");
            assert("\0"@ =~= seq!['\0']);
            assert("\n"@ =~= seq!['\n']);
            assert(buf@ =~= before + entries.pairs()[i as int].0 + seq!['\0'] + entries.pairs()[i as int].1 + seq!['\n']);
            let t = entries.pairs().take(i + 1);
            assert(t.drop_last() =~= entries.pairs().take(i as int));
            assert(t.last() == entries.pairs()[i as int]);
            assert(buf@ =~= kind_prefix(kind) + entries_preimage(t));
        }
        i = i + 1;
    }
    proof {
        assert(entries.pairs().take(n as int) =~= entries.pairs());
    }
    buf
}

/// Structural identity, derived from kind and the sorted child map only,
/// never from a path, an mtime or any other filesystem fact. Files are
/// addressed by their blob hash instead.
pub fn structural_id(kind: ObjectKind, entries: &Entries) -> (id: ObjectId)
    requires
        kind != ObjectKind::File,
    ensures
        id@ == structural_id_of(kind, entries.pairs()),
        id_shaped(id@),
{
    let buf = structural_preimage_text(kind, entries);
    let h = sha256_hex(buf.as_str().as_bytes());
    ObjectId(h)
}

impl Object {
    /// A file object: addressed by its blob hash directly, created now.
    /// Refused only when the clock cannot be read.
    pub fn new_file(hash: String) -> (r: Result<Object, OddError>)
        ensures
            r matches Ok(o) ==> {
                &&& o.id@ == hash@
                &&& o.kind == ObjectKind::File
                &&& o.content matches ContentRef::Blob { hash: h } && h@ == hash@
                &&& o.parents@.len() == 0
                &&& instant_text(o.created@)
            },
            r matches Err(e) ==> e is ClockUnreadable,
    {
        let created = creation_time()?;
        let content = ContentRef::Blob { hash: hash.clone() };
        Ok(Object { id: ObjectId(hash), kind: ObjectKind::File, content, parents: Vec::new(), created })
    }

    /// A directory object: addressed by the structure of its entries,
    /// created now. Refused only when the clock cannot be read.
    pub fn new_directory(entries: Entries) -> (r: Result<Object, OddError>)
        ensures
            r matches Ok(o) ==> {
                &&& o.id@ == structural_id_of(ObjectKind::Directory, entries.pairs())
                &&& o.kind == ObjectKind::Directory
                &&& o.content == (ContentRef::Directory { entries })
                &&& o.parents@.len() == 0
                &&& instant_text(o.created@)
            },
            r matches Err(e) ==> e is ClockUnreadable,
    {
        let created = creation_time()?;
        let id = structural_id(ObjectKind::Directory, &entries);
        Ok(
            Object {
                id,
                kind: ObjectKind::Directory,
                content: ContentRef::Directory { entries },
                parents: Vec::new(),
                created,
            },
        )
    }

    /// A composed object: entries put together without touching disk,
    /// addressed by their structure under its own kind, created now.
    /// Refused only when the clock cannot be read.
    pub fn new_composed(entries: Entries) -> (r: Result<Object, OddError>)
        ensures
            r matches Ok(o) ==> {
                &&& o.id@ == structural_id_of(ObjectKind::Composed, entries.pairs())
                &&& o.kind == ObjectKind::Composed
                &&& o.content == (ContentRef::Directory { entries })
                &&& o.parents@.len() == 0
                &&& instant_text(o.created@)
            },
            r matches Err(e) ==> e is ClockUnreadable,
    {
        let created = creation_time()?;
        let id = structural_id(ObjectKind::Composed, &entries);
        Ok(
            Object {
                id,
                kind: ObjectKind::Composed,
                content: ContentRef::Directory { entries },
                parents: Vec::new(),
                created,
            },
        )
    }
}

/// The name a kind is stored under.
pub open spec fn kind_name(kind: ObjectKind) -> Seq<char> {
    match kind {
        ObjectKind::File => seq!['f', 'i', 'l', 'e'],
        ObjectKind::Directory => seq!['d', 'i', 'r', 'e', 'c', 't', 'o', 'r', 'y'],
        ObjectKind::Composed => seq!['c', 'o', 'm', 'p', 'o', 's', 'e', 'd'],
    }
}

impl ObjectKind {
    /// The name this kind is stored under.
    pub fn name(&self) -> (s: &'static str)
        ensures
            s@ == kind_name(*self),
    {
        match self {
            ObjectKind::File => {
                proof {
                    reveal_strlit("file");
                }
                "file"
            },
            ObjectKind::Directory => {
                proof {
                    reveal_strlit("directory");
                }
                "directory"
            },
            ObjectKind::Composed => {
                proof {
                    reveal_strlit("composed");
                }
                "composed"
            },
        }
    }

    /// Reads back a stored kind name; any other text is refused.
    pub fn parse(s: &str) -> (r: Result<ObjectKind, OddError>)
        ensures
            r matches Ok(k) ==> kind_name(k) == s@,
            r is Err <==> (forall|k: ObjectKind| kind_name(k) != s@),
            r matches Err(e) ==> (e matches OddError::UnknownKind { name } && name@ == s@),
    {
        let owned = s.to_owned();
        proof {
            reveal_strlit("file");
            reveal_strlit("directory");
            reveal_strlit("composed");
        }
        if owned == "file".to_owned() {
            assert(kind_name(ObjectKind::File) =~= s@);
            Ok(ObjectKind::File)
        } else if owned == "directory".to_owned() {
            assert(kind_name(ObjectKind::Directory) =~= s@);
            Ok(ObjectKind::Directory)
        } else if owned == "composed".to_owned() {
            assert(kind_name(ObjectKind::Composed) =~= s@);
            Ok(ObjectKind::Composed)
        } else {
            proof {
                assert forall|k: ObjectKind| kind_name(k) != s@ by {
                    match k {
                        ObjectKind::File => assert(kind_name(k) == "file"@),
                        ObjectKind::Directory => assert(kind_name(k) == "directory"@),
                        ObjectKind::Composed => assert(kind_name(k) == "composed"@),
                    }
                }
            }
            Err(OddError::UnknownKind { name: owned })
        }
    }
}

/// Different kinds are stored under different names, so reading a stored
/// name back gives the kind that was stored.
pub proof fn lemma_kind_name_injective(a: ObjectKind, b: ObjectKind)
    ensures
        kind_name(a) == kind_name(b) ==> a == b,
{
    if kind_name(a) == kind_name(b) {
        assert(kind_name(a).len() == kind_name(b).len());
        assert(kind_name(a)[0] == kind_name(b)[0]);
    }
}

/// A structural id depends on the entries' map alone: entries that map the
/// same names to the same ids give the same id, however they were built.
pub proof fn lemma_structural_id_depends_only_on_entries(kind: ObjectKind, a: Entries, b: Entries)
    requires
        a.wf(),
        b.wf(),
        a@ == b@,
    ensures
        structural_id_of(kind, a.pairs()) == structural_id_of(kind, b.pairs()),
{
    crate::model::entries::lemma_entries_canonical(a, b);
}

/// A directory's id ignores the order its children were bound in: binding
/// the same distinct names to the same ids in any order (as `from_pairs`
/// does) gives the same entries, hence the same structural id.
pub proof fn lemma_structural_id_ignores_insertion_order(
    kind: ObjectKind,
    a: Entries,
    b: Entries,
    s: Seq<PairView>,
    t: Seq<PairView>,
)
    requires
        a.wf(),
        b.wf(),
        a@ == insert_all(Map::empty(), s),
        b@ == insert_all(Map::empty(), t),
        distinct_names(s),
        distinct_names(t),
        s.to_set() == t.to_set(),
    ensures
        a.pairs() == b.pairs(),
        structural_id_of(kind, a.pairs()) == structural_id_of(kind, b.pairs()),
{
    crate::model::entries::lemma_binding_order_irrelevant(Map::empty(), s, t);
    crate::model::entries::lemma_entries_canonical(a, b);
}

/// A directory and a composed object never hash the same preimage, whatever
/// their entries: the kind's own first line keeps them apart.
pub proof fn lemma_directory_and_composed_preimages_differ(s: Seq<PairView>, t: Seq<PairView>)
    ensures
        structural_preimage(ObjectKind::Directory, s) != structural_preimage(ObjectKind::Composed, t),
{
    assert(structural_preimage(ObjectKind::Directory, s)[0] == 'd');
    assert(structural_preimage(ObjectKind::Composed, t)[0] == 'c');
}

/// Identical content gives an identical file id: the id is the content
/// hash and nothing else.
pub proof fn lemma_identical_content_dedupes(a: Seq<u8>, b: Seq<u8>)
    ensures
        a == b ==> content_hash(a) == content_hash(b),
{
}

/// One entry's line in a structural preimage.
pub open spec fn entry_line(p: PairView) -> Seq<char> {
    p.0 + seq!['\0'] + p.1 + seq!['\n']
}

/// Entries whose names hold no NUL and whose ids hold no newline: the
/// separators of a preimage then occur only where they separate.
pub open spec fn plain_entries(m: Map<Seq<char>, Seq<char>>) -> bool {
    forall|k: Seq<char>| #[trigger] m.contains_key(k) ==> !k.contains('\0') && !m[k].contains('\n')
}

pub open spec fn plain_pairs(s: Seq<PairView>) -> bool {
    forall|i: int| 0 <= i < s.len() ==> !(#[trigger] s[i]).0.contains('\0') && !s[i].1.contains('\n')
}

/// A preimage's entry lines read from the front: the first entry's line,
/// then the lines of the rest.
proof fn lemma_entries_preimage_front(s: Seq<PairView>)
    requires
        s.len() > 0,
    ensures
        entries_preimage(s) == entry_line(s[0]) + entries_preimage(s.drop_first()),
    decreases s.len(),
{
    let last = s.last();
    assert(entries_preimage(s) =~= entries_preimage(s.drop_last()) + entry_line(last));
    if s.len() == 1 {
        assert(s.drop_last() =~= Seq::<PairView>::empty());
        assert(s.drop_first() =~= Seq::<PairView>::empty());
        assert(entries_preimage(s) =~= entry_line(s[0]) + entries_preimage(s.drop_first()));
    } else {
        let d = s.drop_last();
        lemma_entries_preimage_front(d);
        assert(d[0] == s[0]);
        assert(d.drop_first() =~= s.drop_first().drop_last());
        assert(s.drop_first().last() == last);
        assert(entries_preimage(s.drop_first()) =~= entries_preimage(s.drop_first().drop_last())
            + entry_line(last));
        assert(entries_preimage(s) =~= entry_line(s[0]) + entries_preimage(s.drop_first()));
    }
}

/// With plain names and ids, the entry lines of a preimage determine the
/// entries: each name ends at the first NUL and each id at the next newline.
proof fn lemma_entries_preimage_injective(s: Seq<PairView>, t: Seq<PairView>)
    requires
        plain_pairs(s),
        plain_pairs(t),
        entries_preimage(s) == entries_preimage(t),
    ensures
        s == t,
    decreases s.len(),
{
    if s.len() == 0 || t.len() == 0 {
        if s.len() > 0 {
            lemma_entries_preimage_front(s);
        }
        if t.len() > 0 {
            lemma_entries_preimage_front(t);
        }
        assert(s =~= t);
    } else {
        lemma_entries_preimage_front(s);
        lemma_entries_preimage_front(t);
        let p = entries_preimage(s);
        let a = s[0];
        let b = t[0];
        assert(!a.0.contains('\0') && !a.1.contains('\n'));
        assert(!b.0.contains('\0') && !b.1.contains('\n'));
        let n: int = a.0.len() as int;
        let m: int = b.0.len() as int;
        if n < m {
            assert(p[n] == '\0');
            assert(p[n] == b.0[n]);
            assert(b.0.contains('\0'));
        }
        if m < n {
            assert(p[m] == '\0');
            assert(p[m] == a.0[m]);
            assert(a.0.contains('\0'));
        }
        assert(n == m);
        assert forall|i: int| 0 <= i < n implies a.0[i] == b.0[i] by {
            assert(p[i] == a.0[i]);
            assert(p[i] == b.0[i]);
        }
        assert(a.0 =~= b.0);
        let x: int = a.1.len() as int;
        let y: int = b.1.len() as int;
        if x < y {
            assert(p[n + 1 + x] == '\n');
            assert(p[n + 1 + x] == b.1[x]);
            assert(b.1.contains('\n'));
        }
        if y < x {
            assert(p[n + 1 + y] == '\n');
            assert(p[n + 1 + y] == a.1[y]);
            assert(a.1.contains('\n'));
        }
        assert(x == y);
        assert forall|i: int| 0 <= i < x implies a.1[i] == b.1[i] by {
            assert(p[n + 1 + i] == a.1[i]);
            assert(p[n + 1 + i] == b.1[i]);
        }
        assert(a.1 =~= b.1);
        assert(a == b);
        let l = entry_line(a);
        assert(entries_preimage(s.drop_first()) =~= p.subrange(l.len() as int, p.len() as int));
        assert(entries_preimage(t.drop_first()) =~= p.subrange(l.len() as int, p.len() as int));
        assert(plain_pairs(s.drop_first())) by {
            assert forall|i: int| 0 <= i < s.drop_first().len() implies !(#[trigger] s.drop_first()[i]).0.contains('\0')
                && !s.drop_first()[i].1.contains('\n') by {
                assert(s.drop_first()[i] == s[i + 1]);
            }
        }
        assert(plain_pairs(t.drop_first())) by {
            assert forall|i: int| 0 <= i < t.drop_first().len() implies !(#[trigger] t.drop_first()[i]).0.contains('\0')
                && !t.drop_first()[i].1.contains('\n') by {
                assert(t.drop_first()[i] == t[i + 1]);
            }
        }
        lemma_entries_preimage_injective(s.drop_first(), t.drop_first());
        assert(s =~= seq![a] + s.drop_first());
        assert(t =~= seq![b] + t.drop_first());
    }
}

/// The sorted pairs of entries with plain names and ids are plain.
proof fn lemma_plain_pairs_of(e: Entries)
    requires
        e.wf(),
        plain_entries(e@),
    ensures
        plain_pairs(e.pairs()),
{
    crate::model::entries::lemma_entries_sorted(e);
    crate::model::entries::lemma_pairs_map(e.pairs());
    assert forall|i: int| 0 <= i < e.pairs().len() implies !(#[trigger] e.pairs()[i]).0.contains('\0')
        && !e.pairs()[i].1.contains('\n') by {
        assert(e@.contains_key(e.pairs()[i].0));
        assert(e@[e.pairs()[i].0] == e.pairs()[i].1);
    }
}

/// Structural ids tell structures apart: for directory and composed
/// objects whose entry names hold no NUL and whose child ids hold no
/// newline, the bytes that are hashed are the same exactly when the kind
/// and the entries (names and ids) are the same. Two different structures
/// can then share an id only through a SHA-256 collision.
pub proof fn lemma_structural_preimage_injective(ka: ObjectKind, a: Entries, kb: ObjectKind, b: Entries)
    requires
        a.wf(),
        b.wf(),
        ka != ObjectKind::File,
        kb != ObjectKind::File,
        plain_entries(a@),
        plain_entries(b@),
    ensures
        vstd::utf8::encode_utf8(structural_preimage(ka, a.pairs())) == vstd::utf8::encode_utf8(
            structural_preimage(kb, b.pairs()),
        ) <==> (ka == kb && a@ == b@),
{
    let pa = structural_preimage(ka, a.pairs());
    let pb = structural_preimage(kb, b.pairs());
    if vstd::utf8::encode_utf8(pa) == vstd::utf8::encode_utf8(pb) {
        vstd::utf8::encode_utf8_decode_utf8(pa);
        vstd::utf8::encode_utf8_decode_utf8(pb);
        assert(pa == pb);
        if ka != kb {
            if ka == ObjectKind::Directory {
                lemma_directory_and_composed_preimages_differ(a.pairs(), b.pairs());
            } else {
                lemma_directory_and_composed_preimages_differ(b.pairs(), a.pairs());
            }
        }
        assert(ka == kb);
        let k = kind_prefix(ka);
        assert(entries_preimage(a.pairs()) =~= pa.subrange(k.len() as int, pa.len() as int));
        assert(entries_preimage(b.pairs()) =~= pb.subrange(k.len() as int, pb.len() as int));
        lemma_plain_pairs_of(a);
        lemma_plain_pairs_of(b);
        lemma_entries_preimage_injective(a.pairs(), b.pairs());
    }
    if ka == kb && a@ == b@ {
        crate::model::entries::lemma_entries_canonical(a, b);
    }
}

} // verus!
