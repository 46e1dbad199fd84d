use vstd::prelude::*;

use crate::error::OddError;
use crate::model::order::chars_of;
use crate::storage::path::{file_name, file_name_of, join_path, parent_dir, parent_of, path_join};
use crate::text::{string_of_chars, trim_white_space, trimmed};

verus! {

pub open spec fn is_ascii_alnum(c: char) -> bool {
    ('0' <= c && c <= '9') || ('a' <= c && c <= 'z') || ('A' <= c && c <= 'Z')
}

pub open spec fn ascii_lower(c: char) -> char {
    if 'A' <= c && c <= 'Z' {
        ((c as u32) + 32) as char
    } else {
        c
    }
}

/// What a slug may hold: lower-case ASCII letters, digits and `-`.
pub open spec fn is_slug_char(c: char) -> bool {
    ('0' <= c && c <= '9') || ('a' <= c && c <= 'z') || c == '-'
}

/// Slugging before the ends are trimmed: letters and digits are kept,
/// lower-cased; every other run of characters after the first kept one
/// becomes a single `-`.
pub open spec fn slug_body(s: Seq<char>) -> Seq<char>
    decreases s.len(),
{
    if s.len() == 0 {
        Seq::empty()
    } else {
        let out = slug_body(s.drop_last());
        let c = s.last();
        if is_ascii_alnum(c) {
            out.push(ascii_lower(c))
        } else if out.len() > 0 && out.last() != '-' {
            out.push('-')
        } else {
            out
        }
    }
}

/// `s` with every trailing `-` removed.
pub open spec fn trim_end_dashes(s: Seq<char>) -> Seq<char>
    decreases s.len(),
{
    if s.len() > 0 && s.last() == '-' {
        trim_end_dashes(s.drop_last())
    } else {
        s
    }
}

/// `s` with every leading `-` removed.
pub open spec fn trim_start_dashes(s: Seq<char>) -> Seq<char>
    decreases s.len(),
{
    if s.len() > 0 && s[0] == '-' {
        trim_start_dashes(s.drop_first())
    } else {
        s
    }
}

/// The slug of a name: `slug_body` with `-` trimmed from both ends.
pub open spec fn slug(s: Seq<char>) -> Seq<char> {
    trim_start_dashes(trim_end_dashes(slug_body(s)))
}

/// A well-formed slug: slug characters only, no `-` at either end, and
/// never two `-` in a row.
pub open spec fn well_formed_slug(t: Seq<char>) -> bool {
    &&& forall|i: int| 0 <= i < t.len() ==> #[trigger] is_slug_char(t[i])
    &&& t.len() > 0 ==> t[0] != '-' && t.last() != '-'
    &&& forall|i: int| 0 <= i < t.len() - 1 ==> !(#[trigger] t[i] == '-' && t[i + 1] == '-')
}

proof fn lemma_slug_body_shape(s: Seq<char>)
    ensures
        forall|i: int| 0 <= i < slug_body(s).len() ==> #[trigger] is_slug_char(slug_body(s)[i]),
        slug_body(s).len() > 0 ==> slug_body(s)[0] != '-',
        forall|i: int| 0 <= i < slug_body(s).len() - 1 ==> !(#[trigger] slug_body(s)[i] == '-' && slug_body(s)[i + 1] == '-'),
    decreases s.len(),
{
    if s.len() > 0 {
        lemma_slug_body_shape(s.drop_last());
        let out = slug_body(s.drop_last());
        let t = slug_body(s);
        assert forall|i: int| 0 <= i < t.len() implies #[trigger] is_slug_char(t[i]) by {
            if i < out.len() {
                assert(t[i] == out[i]);
            }
        }
        assert forall|i: int| 0 <= i < t.len() - 1 implies !(#[trigger] t[i] == '-' && t[i + 1] == '-') by {
            if i + 1 < out.len() {
                assert(t[i] == out[i] && t[i + 1] == out[i + 1]);
            } else {
                assert(t[i] == out[i]);
            }
        }
        if t.len() > 0 && out.len() > 0 {
            assert(t[0] == out[0]);
        }
    }
}

/// The slug is `slug_body` with at most one trailing `-` dropped.
proof fn lemma_slug_is_body_without_last_dash(s: Seq<char>)
    ensures
        slug(s) == if slug_body(s).len() > 0 && slug_body(s).last() == '-' {
            slug_body(s).drop_last()
        } else {
            slug_body(s)
        },
{
    lemma_slug_body_shape(s);
    let b = slug_body(s);
    if b.len() > 0 && b.last() == '-' {
        let d = b.drop_last();
        if d.len() > 0 {
            assert(d.last() == b[b.len() - 2]);
            assert(!(b[b.len() - 2] == '-' && b[b.len() - 1] == '-'));
            assert(d[0] == b[0]);
        }
        assert(trim_end_dashes(b) == trim_end_dashes(d));
        assert(trim_end_dashes(d) == d);
        assert(trim_start_dashes(d) == d);
    } else {
        assert(trim_end_dashes(b) == b);
        assert(trim_start_dashes(b) == b);
    }
}

/// Every slug is well formed.
pub proof fn lemma_slug_well_formed(s: Seq<char>)
    ensures
        well_formed_slug(slug(s)),
{
    lemma_slug_body_shape(s);
    lemma_slug_is_body_without_last_dash(s);
    let b = slug_body(s);
    let t = slug(s);
    if b.len() > 0 && b.last() == '-' {
        assert forall|i: int| 0 <= i < t.len() implies #[trigger] is_slug_char(t[i]) by {
            assert(t[i] == b[i]);
        }
        assert forall|i: int| 0 <= i < t.len() - 1 implies !(#[trigger] t[i] == '-' && t[i + 1] == '-') by {
            assert(t[i] == b[i] && t[i + 1] == b[i + 1]);
        }
        if t.len() > 0 {
            assert(t[0] == b[0]);
            assert(t.last() == b[b.len() - 2]);
            assert(!(b[b.len() - 2] == '-' && b[b.len() - 1] == '-'));
        }
    }
}

/// Alphanumeric characters always carry over into the slug body,
/// lower-cased, whatever came before them.
proof fn lemma_slug_body_append_alnum(p: Seq<char>, y: Seq<char>)
    requires
        forall|i: int| 0 <= i < y.len() ==> #[trigger] is_ascii_alnum(y[i]),
    ensures
        slug_body(p + y) == slug_body(p) + y.map_values(|c: char| ascii_lower(c)),
    decreases y.len(),
{
    if y.len() == 0 {
        assert(p + y =~= p);
        assert(y.map_values(|c: char| ascii_lower(c)) =~= Seq::<char>::empty());
        assert(slug_body(p) + Seq::<char>::empty() =~= slug_body(p));
    } else {
        let y0 = y.drop_last();
        lemma_slug_body_append_alnum(p, y0);
        assert((p + y).drop_last() =~= p + y0);
        assert((p + y).last() == y.last());
        assert(is_ascii_alnum(y[y.len() - 1]));
        assert(y.map_values(|c: char| ascii_lower(c)) =~= y0.map_values(|c: char| ascii_lower(c)).push(
            ascii_lower(y.last()),
        ));
        assert(slug_body(p + y) =~= slug_body(p) + y.map_values(|c: char| ascii_lower(c)));
    }
}

/// A name made of ASCII letters and digits slugs to itself with upper-case
/// letters lowered (`A`..`Z` become `a`..`z`, 32 code points on), and
/// nothing else changed.
pub proof fn lemma_slug_of_alphanumeric(s: Seq<char>)
    requires
        forall|i: int|
            0 <= i < s.len() ==> ('0' <= #[trigger] s[i] && s[i] <= '9') || ('a' <= s[i] && s[i] <= 'z')
                || ('A' <= s[i] && s[i] <= 'Z'),
    ensures
        slug(s).len() == s.len(),
        forall|i: int|
            0 <= i < s.len() ==> #[trigger] slug(s)[i] == if 'A' <= s[i] && s[i] <= 'Z' {
                ((s[i] as u32) + 32) as char
            } else {
                s[i]
            },
{
    assert(forall|i: int| 0 <= i < s.len() ==> #[trigger] is_ascii_alnum(s[i]));
    lemma_slug_body_append_alnum(Seq::empty(), s);
    assert(Seq::<char>::empty() + s =~= s);
    let b = slug_body(s);
    assert(b =~= s.map_values(|c: char| ascii_lower(c)));
    lemma_slug_is_body_without_last_dash(s);
    if b.len() > 0 {
        let c = s[s.len() - 1];
        assert(b.last() == ascii_lower(c));
        assert(is_ascii_alnum(c));
    }
}

/// Any character other than an ASCII letter or digit separates: between
/// two runs of lower-case letters and digits it becomes exactly one `-`.
pub proof fn lemma_slug_separator(x: Seq<char>, c: char, y: Seq<char>)
    requires
        x.len() > 0,
        y.len() > 0,
        forall|i: int| 0 <= i < x.len() ==> ('0' <= #[trigger] x[i] && x[i] <= '9') || ('a' <= x[i] && x[i] <= 'z'),
        forall|i: int| 0 <= i < y.len() ==> ('0' <= #[trigger] y[i] && y[i] <= '9') || ('a' <= y[i] && y[i] <= 'z'),
        !(('0' <= c && c <= '9') || ('a' <= c && c <= 'z') || ('A' <= c && c <= 'Z')),
    ensures
        slug(x + seq![c] + y) == x + seq!['-'] + y,
{
    assert(forall|i: int| 0 <= i < x.len() ==> #[trigger] is_ascii_alnum(x[i]));
    assert(forall|i: int| 0 <= i < y.len() ==> #[trigger] is_ascii_alnum(y[i]));
    lemma_slug_body_append_alnum(Seq::empty(), x);
    assert(Seq::<char>::empty() + x =~= x);
    assert(x.map_values(|ch: char| ascii_lower(ch)) =~= x);
    assert(slug_body(x) == x);
    let xc = x + seq![c];
    assert(xc.drop_last() =~= x);
    assert(xc.last() == c);
    assert(x.last() != '-');
    assert(slug_body(xc) == x.push('-'));
    lemma_slug_body_append_alnum(xc, y);
    assert(y.map_values(|ch: char| ascii_lower(ch)) =~= y);
    let w = x + seq!['-'] + y;
    assert(slug_body(xc + y) =~= w);
    assert(xc + y =~= x + seq![c] + y);
    lemma_slug_is_body_without_last_dash(x + seq![c] + y);
    assert(w.last() == y.last());
    assert(y.last() != '-');
}

fn char_is_ascii_alnum(c: char) -> (b: bool)
    ensures
        b == is_ascii_alnum(c),
{
    ('0' <= c && c <= '9') || ('a' <= c && c <= 'z') || ('A' <= c && c <= 'Z')
}

fn char_ascii_lower(c: char) -> (l: char)
    ensures
        l == ascii_lower(c),
{
    if 'A' <= c && c <= 'Z' {
        let b: u8 = c as u8;
        assert(b == c as u32);
        let l = (b + 32) as char;
        assert(l == ((c as u32) + 32) as char);
        l
    } else {
        c
    }
}

/// A readable name from free text: ASCII letters and digits, lower-cased,
/// with each run of anything else between them turned into one `-`.
pub fn slugify(s: &str) -> (t: String)
    ensures
        t@ == slug(s@),
        well_formed_slug(t@),
{
    let v = chars_of(s);
    let n = v.len();
    let mut out: Vec<char> = Vec::new();
    let mut i: usize = 0;
    while i < n
        invariant
            v@ == s@,
            n == v@.len(),
            i <= n,
            out@ == slug_body(s@.take(i as int)),
        decreases n - i,
    {
        let c = v[i];
        proof {
            assert(s@.take(i + 1).drop_last() =~= s@.take(i as int));
            assert(s@.take(i + 1).last() == c);
        }
        if char_is_ascii_alnum(c) {
            out.push(char_ascii_lower(c));
        } else if out.len() > 0 && out[out.len() - 1] != '-' {
            out.push('-');
        }
        i = i + 1;
    }
    proof {
        assert(s@.take(n as int) =~= s@);
        lemma_slug_is_body_without_last_dash(s@);
        lemma_slug_well_formed(s@);
    }
    if out.len() > 0 && out[out.len() - 1] == '-' {
        out.pop();
    }
    string_of_chars(&out)
}

/// The hyphenated text form of a UUID: 36 characters, `-` at positions 8,
/// 13, 18 and 23, lower-case hex digits elsewhere.
pub open spec fn hyphenated_uuid_shape(s: Seq<char>) -> bool {
    &&& s.len() == 36
    &&& forall|i: int|
        0 <= i < 36 ==> if i == 8 || i == 13 || i == 18 || i == 23 {
            #[trigger] s[i] == '-'
        } else {
            ('0' <= s[i] && s[i] <= '9') || ('a' <= s[i] && s[i] <= 'f')
        }
}

fn is_lower_hex_digit(c: char) -> (b: bool)
    ensures
        b == (('0' <= c && c <= '9') || ('a' <= c && c <= 'f')),
{
    ('0' <= c && c <= '9') || ('a' <= c && c <= 'f')
}

/// Whether `s` has the hyphenated lower-case UUID form.
pub fn is_hyphenated_uuid(s: &str) -> (b: bool)
    ensures
        b == hyphenated_uuid_shape(s@),
{
    let v = chars_of(s);
    if v.len() != 36 {
        return false;
    }
    let mut i: usize = 0;
    while i < 36
        invariant
            v@ == s@,
            v@.len() == 36,
            i <= 36,
            forall|j: int|
                0 <= j < i ==> if j == 8 || j == 13 || j == 18 || j == 23 {
                    #[trigger] v@[j] == '-'
                } else {
                    ('0' <= v@[j] && v@[j] <= '9') || ('a' <= v@[j] && v@[j] <= 'f')
                },
        decreases 36 - i,
    {
        let c = v[i];
        let ok = if i == 8 || i == 13 || i == 18 || i == 23 {
            c == '-'
        } else {
            is_lower_hex_digit(c)
        };
        if !ok {
            assert(!(if i == 8 || i == 13 || i == 18 || i == 23 {
                v@[i as int] == '-'
            } else {
                ('0' <= v@[i as int] && v@[i as int] <= '9') || ('a' <= v@[i as int] && v@[i as int] <= 'f')
            }));
            return false;
        }
        i = i + 1;
    }
    true
}

/// Where the tool keeps its data: `$ODD_HOME` when set, else
/// `$HOME/.local/share/odd`.
pub open spec fn odd_home_from(home: Seq<char>) -> Seq<char> {
    path_join(path_join(path_join(home, seq!['.', 'l', 'o', 'c', 'a', 'l']), seq!['s', 'h', 'a', 'r', 'e']), seq!['o', 'd', 'd'])
}

/// The data directory, from the values of `ODD_HOME` and `HOME` (`None`
/// for a variable that is not set).
pub fn odd_home(odd_home_var: Option<String>, home_var: Option<String>) -> (r: Result<String, OddError>)
    ensures
        odd_home_var matches Some(p) ==> (r matches Ok(h) && h@ == p@),
        odd_home_var is None ==> match home_var {
            Some(home) => (r matches Ok(h) && h@ == odd_home_from(home@)),
            None => r matches Err(OddError::HomeNotSet),
        },
{
    match odd_home_var {
        Some(p) => Ok(p),
        None => match home_var {
            Some(home) => {
                let a = join_path(home.as_str(), ".local");
                let b = join_path(a.as_str(), "share");
                let c = join_path(b.as_str(), "odd");
                proof {
                    reveal_strlit(".local");
                    reveal_strlit("share");
                    reveal_strlit("odd");
                    assert(".local"@ =~= seq!['.', 'l', 'o', 'c', 'a', 'l']);
                    assert("share"@ =~= seq!['s', 'h', 'a', 'r', 'e']);
                    assert("odd"@ =~= seq!['o', 'd', 'd']);
                }
                Ok(c)
            },
            None => Err(OddError::HomeNotSet),
        },
    }
}

pub open spec fn stores_seg() -> Seq<char> {
    seq!['s', 't', 'o', 'r', 'e', 's']
}

/// Where the store with id `id` lives under the data directory.
pub open spec fn store_path(odd_home: Seq<char>, id: Seq<char>) -> Seq<char> {
    path_join(path_join(odd_home, stores_seg()), id)
}

/// The id a new store gets: the one asked for, else the slug of `hint`,
/// else the generated `fresh` if it has the UUID form (`None` otherwise).
pub open spec fn store_id_choice(id: Option<String>, hint: Seq<char>, fresh: Seq<char>) -> Option<Seq<char>> {
    match id {
        Some(i) => Some(i@),
        None => if slug(hint).len() > 0 {
            Some(slug(hint))
        } else if hyphenated_uuid_shape(fresh) {
            Some(fresh)
        } else {
            None
        },
    }
}

/// A durable store of objects, named by its id.
#[derive(Debug)]
pub struct Store {
    pub id: String,
    pub path: String,
}

impl Store {
    /// Where the store with this id lives.
    pub fn path_for_id(odd_home: &str, id: &str) -> (p: String)
        ensures
            p@ == store_path(odd_home@, id@),
    {
        let stores = join_path(odd_home, "stores");
        proof {
            reveal_strlit("stores");
            assert("stores"@ =~= stores_seg());
        }
        join_path(stores.as_str(), id)
    }

    /// Opens an existing store; `is_dir` says whether its directory
    /// (`path_for_id`) exists. A missing store is refused.
    pub fn open(odd_home: &str, id: &str, is_dir: bool) -> (r: Result<Store, OddError>)
        ensures
            is_dir ==> (r matches Ok(s) && s.id@ == id@ && s.path@ == store_path(odd_home@, id@)),
            !is_dir ==> (r matches Err(OddError::StoreNotFound { id: e }) && e@ == id@),
    {
        let path = Store::path_for_id(odd_home, id);
        if !is_dir {
            return Err(OddError::StoreNotFound { id: id.to_owned() });
        }
        Ok(Store { id: id.to_owned(), path })
    }

    /// Whether a new store needs a generated id: none was asked for and
    /// the slug of `hint` is empty.
    pub fn needs_generated_id(id: &Option<String>, hint: &str) -> (b: bool)
        ensures
            b == (id is None && slug(hint@).len() == 0),
    {
        match id {
            Some(_) => false,
            None => {
                let t = slugify(hint);
                t.as_str().is_empty()
            },
        }
    }

    /// The id of a new store: the one asked for, else a slug of `hint`,
    /// else `fresh`, a generated UUID, which must have the hyphenated form.
    pub fn choose_id(id: Option<String>, hint: &str, fresh: &str) -> (r: Result<String, OddError>)
        ensures
            match store_id_choice(id, hint@, fresh@) {
                Some(c) => r matches Ok(t) && t@ == c,
                None => r matches Err(OddError::BadGeneratedId { id: e }) && e@ == fresh@,
            },
    {
        match id {
            Some(i) => Ok(i),
            None => {
                let t = slugify(hint);
                if !t.as_str().is_empty() {
                    Ok(t)
                } else if is_hyphenated_uuid(fresh) {
                    Ok(fresh.to_owned())
                } else {
                    Err(OddError::BadGeneratedId { id: fresh.to_owned() })
                }
            },
        }
    }

    /// The store for a new workspace. The id is the one asked for, else a
    /// slug of `hint` (typically the workspace directory's name), and the
    /// generated UUID `fresh` only when the slug would be empty; `fresh`
    /// is read only then (see `needs_generated_id`). An existing store with
    /// that id is opened as is, so the store is the same either way.
    pub fn create(odd_home: &str, id: Option<String>, hint: &str, fresh: &str) -> (r: Result<Store, OddError>)
        ensures
            match store_id_choice(id, hint@, fresh@) {
                Some(c) => r matches Ok(s) && s.id@ == c && s.path@ == store_path(odd_home@, c),
                None => r matches Err(OddError::BadGeneratedId { id: e }) && e@ == fresh@,
            },
    {
        let id = match Store::choose_id(id, hint, fresh) {
            Ok(i) => i,
            Err(e) => return Err(e),
        };
        let path = Store::path_for_id(odd_home, id.as_str());
        Ok(Store { id, path })
    }

    /// The metadata database inside the store.
    pub fn db_path(&self) -> (p: String)
        ensures
            p@ == path_join(self.path@, seq!['m', 'e', 't', 'a', 'd', 'a', 't', 'a', '.', 'd', 'b']),
    {
        proof {
            reveal_strlit("metadata.db");
            assert("metadata.db"@ =~= seq!['m', 'e', 't', 'a', 'd', 'a', 't', 'a', '.', 'd', 'b']);
        }
        join_path(self.path.as_str(), "metadata.db")
    }

    /// The blob directory inside the store.
    pub fn objects_dir(&self) -> (p: String)
        ensures
            p@ == path_join(self.path@, seq!['o', 'b', 'j', 'e', 'c', 't', 's']),
    {
        proof {
            reveal_strlit("objects");
            assert("objects"@ =~= seq!['o', 'b', 'j', 'e', 'c', 't', 's']);
        }
        join_path(self.path.as_str(), "objects")
    }
}

pub open spec fn odd_dir_seg() -> Seq<char> {
    seq!['.', 'o', 'd', 'd']
}

pub open spec fn workspace_seg() -> Seq<char> {
    seq!['w', 'o', 'r', 'k', 's', 'p', 'a', 'c', 'e']
}

/// The name a workspace at `at` slugs its store id from.
pub open spec fn workspace_hint(at: Seq<char>) -> Seq<char> {
    match file_name_of(at) {
        Some(n) => n,
        None => workspace_seg(),
    }
}

/// A project directory bound to a store through its `.odd` directory.
#[derive(Debug)]
pub struct Workspace {
    pub odd_dir: String,
    pub store: Store,
}

impl Workspace {
    /// The `.odd` directory a workspace at `at` keeps.
    pub fn odd_dir_for(at: &str) -> (p: String)
        ensures
            p@ == path_join(at@, odd_dir_seg()),
    {
        proof {
            reveal_strlit(".odd");
            assert(".odd"@ =~= odd_dir_seg());
        }
        join_path(at, ".odd")
    }

    /// The name a new workspace's store is slugged from: the last name of
    /// `at`, else `workspace`.
    pub fn store_hint(at: &str) -> (h: String)
        ensures
            h@ == workspace_hint(at@),
    {
        match file_name(at) {
            Some(n) => n,
            None => {
                proof {
                    reveal_strlit("workspace");
                    assert("workspace"@ =~= workspace_seg());
                }
                "workspace".to_owned()
            },
        }
    }

    /// A new workspace at `at`. `odd_dir_exists` says whether
    /// `odd_dir_for(at)` already exists, in which case the directory is a
    /// workspace already and is refused. The store id is chosen as in
    /// `Store::create` from `store_id`, the hint `store_hint(at)` and the
    /// generated UUID `fresh`; only then is the data directory `odd_home`
    /// needed, and a failure to find it is passed on.
    pub fn init(
        odd_home: Result<String, OddError>,
        at: &str,
        store_id: Option<String>,
        fresh: &str,
        odd_dir_exists: bool,
    ) -> (r: Result<Workspace, OddError>)
        ensures
            odd_dir_exists ==> (r matches Err(OddError::WorkspaceExists { at: e }) && e@ == at@),
            !odd_dir_exists ==> match store_id_choice(store_id, workspace_hint(at@), fresh@) {
                None => r matches Err(OddError::BadGeneratedId { id: e }) && e@ == fresh@,
                Some(c) => match odd_home {
                    Err(e) => r == Err::<Workspace, OddError>(e),
                    Ok(h) => r matches Ok(w) && {
                        &&& w.odd_dir@ == path_join(at@, odd_dir_seg())
                        &&& w.store.id@ == c
                        &&& w.store.path@ == store_path(h@, c)
                    },
                },
            },
    {
        let odd_dir = Workspace::odd_dir_for(at);
        if odd_dir_exists {
            return Err(OddError::WorkspaceExists { at: at.to_owned() });
        }
        let hint = Workspace::store_hint(at);
        let id = match Store::choose_id(store_id, hint.as_str(), fresh) {
            Ok(i) => i,
            Err(e) => return Err(e),
        };
        let home = match odd_home {
            Ok(h) => h,
            Err(e) => return Err(e),
        };
        let path = Store::path_for_id(home.as_str(), id.as_str());
        Ok(Workspace { odd_dir, store: Store { id, path } })
    }
}

/// One step of the walk that finds the workspace enclosing a directory.
#[derive(Debug)]
pub enum FindStep {
    /// The directory holds `.odd`: this is the workspace.
    Found { odd_dir: String },
    /// It does not: look in its parent next.
    Up { dir: String },
}

impl Workspace {
    /// The walk's decision at `dir`, given whether `odd_dir_for(dir)` is a
    /// directory: found there, else go up to the parent; with no parent
    /// left the start was not inside a workspace.
    pub fn find_step(dir: &str, odd_dir_is_dir: bool) -> (r: Result<FindStep, OddError>)
        ensures
            odd_dir_is_dir ==> (r matches Ok(FindStep::Found { odd_dir }) && odd_dir@ == path_join(
                dir@,
                odd_dir_seg(),
            )),
            !odd_dir_is_dir ==> match parent_of(dir@) {
                Some(p) => r matches Ok(FindStep::Up { dir: d }) && d@ == p,
                None => r matches Err(OddError::NotAWorkspace),
            },
    {
        if odd_dir_is_dir {
            return Ok(FindStep::Found { odd_dir: Workspace::odd_dir_for(dir) });
        }
        match parent_dir(dir) {
            Some(p) => Ok(FindStep::Up { dir: p }),
            None => Err(OddError::NotAWorkspace),
        }
    }
}

/// The store id a workspace's locator file holds: its text with
/// surrounding white space trimmed.
pub fn parse_store_locator(text: &str) -> (id: String)
    ensures
        exists|start: int, end: int| trimmed(text@, start, end) && id@ == text@.subrange(start, end),
{
    trim_white_space(text)
}

} // verus!
