use vstd::prelude::*;

use crate::model::order::chars_of;

verus! {

/// Calls `String::push`. Trusted: the character is appended.
#[verifier::external_body]
pub(crate) fn push_char(s: &mut String, c: char)
    ensures
        final(s)@ == old(s)@.push(c),
{
    s.push(c)
}

/// A string holding exactly the given characters.
pub fn string_of_chars(v: &Vec<char>) -> (s: String)
    ensures
        s@ == v@,
{
    let mut s = String::new();
    let n = v.len();
    let mut i: usize = 0;
    while i < n
        invariant
            n == v@.len(),
            i <= n,
            s@ == v@.take(i as int),
        decreases n - i,
    {
        push_char(&mut s, v[i]);
        assert(v@.take(i + 1) =~= v@.take(i as int).push(v@[i as int]));
        i = i + 1;
    }
    assert(v@.take(n as int) =~= v@);
    s
}

/// The Unicode `White_Space` characters: what `char::is_whitespace`
/// accepts and `str::trim` removes.
pub open spec fn is_white_space(c: char) -> bool {
    ||| ('\t' <= c && c <= '\r')
    ||| c == ' '
    ||| c == '\u{85}'
    ||| c == '\u{a0}'
    ||| c == '\u{1680}'
    ||| ('\u{2000}' <= c && c <= '\u{200a}')
    ||| c == '\u{2028}'
    ||| c == '\u{2029}'
    ||| c == '\u{202f}'
    ||| c == '\u{205f}'
    ||| c == '\u{3000}'
}

/// Whether a character is Unicode white space.
pub fn char_is_white_space(c: char) -> (b: bool)
    ensures
        b == is_white_space(c),
{
    ('\t' <= c && c <= '\r') || c == ' ' || c == '\u{85}' || c == '\u{a0}' || c == '\u{1680}' || (
    '\u{2000}' <= c && c <= '\u{200a}') || c == '\u{2028}' || c == '\u{2029}' || c == '\u{202f}'
        || c == '\u{205f}' || c == '\u{3000}'
}

/// `s` with leading and trailing white space removed: the part from the
/// first to the last character that is not white space.
pub open spec fn trimmed(s: Seq<char>, start: int, end: int) -> bool {
    &&& 0 <= start <= end <= s.len()
    &&& forall|i: int| 0 <= i < start ==> #[trigger] is_white_space(s[i])
    &&& forall|i: int| end <= i < s.len() ==> #[trigger] is_white_space(s[i])
    &&& start < end ==> !is_white_space(s[start]) && !is_white_space(s[end - 1])
}

/// Removes leading and trailing white space, as `str::trim` does.
pub fn trim_white_space(s: &str) -> (t: String)
    ensures
        exists|start: int, end: int| trimmed(s@, start, end) && t@ == s@.subrange(start, end),
{
    let v = chars_of(s);
    let n = v.len();
    let mut start: usize = 0;
    while start < n && char_is_white_space(v[start])
        invariant
            v@ == s@,
            n == v@.len(),
            start <= n,
            forall|i: int| 0 <= i < start ==> #[trigger] is_white_space(s@[i]),
        decreases n - start,
    {
        start = start + 1;
    }
    let mut end: usize = n;
    while end > start && char_is_white_space(v[end - 1])
        invariant
            v@ == s@,
            n == v@.len(),
            start <= end <= n,
            forall|i: int| end <= i < n ==> #[trigger] is_white_space(s@[i]),
        decreases end - start,
    {
        end = end - 1;
    }
    let mut out: Vec<char> = Vec::new();
    let mut i: usize = start;
    while i < end
        invariant
            v@ == s@,
            start <= i <= end <= n,
            n == v@.len(),
            out@ == s@.subrange(start as int, i as int),
        decreases end - i,
    {
        out.push(v[i]);
        assert(s@.subrange(start as int, i + 1) =~= s@.subrange(start as int, i as int).push(s@[i as int]));
        i = i + 1;
    }
    assert(trimmed(s@, start as int, end as int));
    string_of_chars(&out)
}

/// Whether a string's first character is `c`.
pub fn starts_with_char(s: &str, c: char) -> (b: bool)
    ensures
        b == (s@.len() > 0 && s@[0] == c),
{
    let v = chars_of(s);
    v.len() > 0 && v[0] == c
}

/// Whether a string's last character is `c`.
pub fn ends_with_char(s: &str, c: char) -> (b: bool)
    ensures
        b == (s@.len() > 0 && s@.last() == c),
{
    let v = chars_of(s);
    v.len() > 0 && v[v.len() - 1] == c
}

} // verus!
