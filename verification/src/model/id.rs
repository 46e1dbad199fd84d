use vstd::prelude::*;

verus! {

/// An ASCII hexadecimal digit, either case.
pub open spec fn is_hex_digit(c: char) -> bool {
    ('0' <= c && c <= '9') || ('a' <= c && c <= 'f') || ('A' <= c && c <= 'F')
}

/// What an object id looks like: exactly the length of a hex-encoded
/// SHA-256 digest, hex digits only.
pub open spec fn id_shaped(s: Seq<char>) -> bool {
    s.len() == 64 && forall|i: int| 0 <= i < s.len() ==> #[trigger] is_hex_digit(s[i])
}

/// Whether a character is an ASCII hexadecimal digit.
pub fn char_is_hex_digit(c: char) -> (b: bool)
    ensures b == is_hex_digit(c),
{
    ('0' <= c && c <= '9') || ('a' <= c && c <= 'f') || ('A' <= c && c <= 'F')
}

fn id_shaped_str(s: &str) -> (b: bool)
    ensures b == id_shaped(s@),
{
    broadcast use vstd::string::group_string_axioms;
    let mut all_hex = true;
    let mut count: usize = 0;
    for c in it: s.chars()
        invariant
            it.seq() == s@,
            count == if it.index() <= 65 { it.index() as int } else { 65 },
            all_hex == (forall|i: int| 0 <= i < it.index() ==> #[trigger] is_hex_digit(s@[i])),
    {
        if !char_is_hex_digit(c) {
            all_hex = false;
        }
        if count < 65 {
            count = count + 1;
        }
    }
    all_hex && count == 64
}

/// A content-addressed identifier. Built only from content or structure,
/// never from a filesystem path or a timestamp.
#[derive(Debug, Hash)]
pub struct ObjectId(pub String);

impl View for ObjectId {
    type V = Seq<char>;

    open spec fn view(&self) -> Seq<char> {
        self.0@
    }
}

impl ObjectId {
    /// The id's text.
    pub fn as_str(&self) -> (s: &str)
        ensures
            s@ == self@,
    {
        self.0.as_str()
    }

    /// The one place a reference is treated as a raw id rather than a
    /// name: exactly the length of a hex SHA-256 digest, all hex digits.
    pub fn looks_like_id(s: &str) -> (b: bool)
        ensures
            b == id_shaped(s@),
    {
        id_shaped_str(s)
    }
}

impl Clone for ObjectId {
    fn clone(&self) -> (r: Self)
        ensures
            r == *self,
    {
        ObjectId(self.0.clone())
    }
}

impl PartialEq for ObjectId {
    fn eq(&self, other: &Self) -> (r: bool) {
        self.0 == other.0
    }
}

impl Eq for ObjectId {
}

impl vstd::std_specs::cmp::PartialEqSpecImpl for ObjectId {
    open spec fn obeys_eq_spec() -> bool {
        true
    }

    open spec fn eq_spec(&self, other: &ObjectId) -> bool {
        self@ == other@
    }
}

} // verus!
