use vstd::prelude::*;

use crate::model::order::chars_of;
use crate::text::{ends_with_char, starts_with_char, string_of_chars};

verus! {

/// Joining a path and a further component the way `Path::join` does on
/// Unix: an absolute component replaces the path, and a separator goes
/// between them unless the path is empty or already ends in one.
pub open spec fn path_join(base: Seq<char>, seg: Seq<char>) -> Seq<char> {
    if seg.len() > 0 && seg[0] == '/' {
        seg
    } else if base.len() == 0 {
        seg
    } else if base.last() == '/' {
        base + seg
    } else {
        base + seq!['/'] + seg
    }
}

/// `base` joined with `seg`, as `Path::join` does it on Unix.
pub fn join_path(base: &str, seg: &str) -> (p: String)
    ensures
        p@ == path_join(base@, seg@),
{
    if starts_with_char(seg, '/') || base.is_empty() {
        return seg.to_owned();
    }
    let mut p = base.to_owned();
    if !ends_with_char(base, '/') {
        p.append("/");
        proof {
            reveal_strlit("/");
            assert("/"@ =~= seq!['/']);
        }
    }
    p.append(seg);
    p
}

/// `s` without its trailing `/` characters.
pub open spec fn without_trailing_slashes(s: Seq<char>) -> Seq<char>
    decreases s.len(),
{
    if s.len() > 0 && s.last() == '/' {
        without_trailing_slashes(s.drop_last())
    } else {
        s
    }
}

/// `s` without its last run of characters other than `/`.
pub open spec fn without_last_name(s: Seq<char>) -> Seq<char>
    decreases s.len(),
{
    if s.len() > 0 && s.last() != '/' {
        without_last_name(s.drop_last())
    } else {
        s
    }
}

/// The directory a path sits in, as `Path::parent` gives it for paths made
/// of plain names (no `.` or `..` components): trailing separators are
/// ignored, the last name is dropped along with the separators before it;
/// the root and the empty path have no parent, and a single relative name
/// has the empty path as its parent.
pub open spec fn parent_of(p: Seq<char>) -> Option<Seq<char>> {
    let t = without_trailing_slashes(p);
    if t.len() == 0 {
        None
    } else {
        let rest = without_last_name(t);
        if rest.len() == 0 {
            Some(Seq::empty())
        } else if without_trailing_slashes(rest).len() == 0 {
            Some(seq!['/'])
        } else {
            Some(without_trailing_slashes(rest))
        }
    }
}

proof fn lemma_strip_prefix(s: Seq<char>, n: int, slash: bool)
    requires
        0 <= n <= s.len(),
        forall|i: int| n <= i < s.len() ==> (#[trigger] s[i] == '/') == slash,
        n > 0 ==> (s[n - 1] == '/') != slash,
    ensures
        slash ==> without_trailing_slashes(s) == s.take(n),
        !slash ==> without_last_name(s) == s.take(n),
    decreases s.len() - n,
{
    if n < s.len() {
        let d = s.drop_last();
        assert forall|i: int| n <= i < d.len() implies (#[trigger] d[i] == '/') == slash by {
            assert(d[i] == s[i]);
        }
        if n > 0 {
            assert(d[n - 1] == s[n - 1]);
        }
        lemma_strip_prefix(d, n, slash);
        assert(d.take(n) =~= s.take(n));
    } else {
        assert(s.take(n) =~= s);
    }
}

/// How long `v` is once its trailing run of `/` (when `slash`) or of other
/// characters (otherwise) is dropped.
fn strip_run(v: &Vec<char>, len: usize, slash: bool) -> (n: usize)
    requires
        len <= v@.len(),
    ensures
        n <= len,
        slash ==> without_trailing_slashes(v@.take(len as int)) == v@.take(n as int),
        !slash ==> without_last_name(v@.take(len as int)) == v@.take(n as int),
{
    let mut n = len;
    while n > 0 && ((v[n - 1] == '/') == slash)
        invariant
            n <= len <= v@.len(),
            forall|i: int| n <= i < len ==> (#[trigger] v@[i] == '/') == slash,
        decreases n,
    {
        n = n - 1;
    }
    proof {
        let s = v@.take(len as int);
        assert forall|i: int| n <= i < s.len() implies (#[trigger] s[i] == '/') == slash by {
            assert(s[i] == v@[i]);
        }
        if n > 0 {
            assert(s[n - 1] == v@[n - 1]);
        }
        lemma_strip_prefix(s, n as int, slash);
        assert(s.take(n as int) =~= v@.take(n as int));
    }
    n
}

/// `s` without trailing separators and trailing `/.` components, which
/// name nothing further.
pub open spec fn without_trailing_dots(s: Seq<char>) -> Seq<char>
    decreases s.len(),
{
    let t = without_trailing_slashes(s);
    if t.len() >= 2 && t.last() == '.' && t[t.len() - 2] == '/' {
        proof {
            lemma_without_trailing_slashes_len(s);
        }
        without_trailing_dots(t.drop_last())
    } else {
        t
    }
}

/// Dropping trailing separators never lengthens a path.
pub proof fn lemma_without_trailing_slashes_len(s: Seq<char>)
    ensures
        without_trailing_slashes(s).len() <= s.len(),
    decreases s.len(),
{
    if s.len() > 0 && s.last() == '/' {
        lemma_without_trailing_slashes_len(s.drop_last());
    }
}

proof fn lemma_without_trailing_slashes_idempotent(s: Seq<char>)
    ensures
        without_trailing_slashes(without_trailing_slashes(s)) == without_trailing_slashes(s),
    decreases s.len(),
{
    if s.len() > 0 && s.last() == '/' {
        lemma_without_trailing_slashes_idempotent(s.drop_last());
    }
}

/// The last name of a path, as `Path::file_name` gives it: trailing
/// separators and `.` components are passed over, and a path ending in
/// `..`, or naming nothing (the root, `.`, the empty path), has none.
pub open spec fn file_name_of(p: Seq<char>) -> Option<Seq<char>> {
    let t = without_trailing_dots(p);
    let name = t.skip(without_last_name(t).len() as int);
    if name.len() == 0 || name == seq!['.'] || name == seq!['.', '.'] {
        None
    } else {
        Some(name)
    }
}

/// The last name of `p` (see `file_name_of`).
pub fn file_name(p: &str) -> (r: Option<String>)
    ensures
        match file_name_of(p@) {
            Some(q) => r matches Some(s) && s@ == q,
            None => r is None,
        },
{
    let v = chars_of(p);
    let mut len = v.len();
    assert(v@.take(len as int) =~= p@);
    loop
        invariant_except_break
            len <= v@.len(),
            without_trailing_dots(p@) == without_trailing_dots(v@.take(len as int)),
        ensures
            len <= v@.len(),
            without_trailing_dots(p@) == v@.take(len as int),
        decreases len,
    {
        let t = strip_run(&v, len, true);
        let ghost x = v@.take(len as int);
        let ghost s = v@.take(t as int);
        proof {
            assert(without_trailing_slashes(x) == s);
            if t >= 1 {
                assert(s.last() == v@[t - 1]);
            }
            if t >= 2 {
                assert(s[t - 2] == v@[t - 2]);
            }
        }
        if t >= 2 && v[t - 1] == '.' && v[t - 2] == '/' {
            proof {
                assert(s.drop_last() =~= v@.take(t - 1));
            }
            len = t - 1;
        } else {
            proof {
                lemma_without_trailing_slashes_idempotent(x);
                assert(without_trailing_dots(x) == s);
            }
            len = t;
            break;
        }
    }
    let start = strip_run(&v, len, false);
    let mut out: Vec<char> = Vec::new();
    let mut i: usize = start;
    while i < len
        invariant
            start <= i <= len <= v@.len(),
            out@ == v@.subrange(start as int, i as int),
        decreases len - i,
    {
        out.push(v[i]);
        assert(v@.subrange(start as int, i + 1) =~= v@.subrange(start as int, i as int).push(v@[i as int]));
        i = i + 1;
    }
    proof {
        assert(v@.take(len as int).skip(start as int) =~= out@);
    }
    let n = out.len();
    if n == 0 || (n == 1 && out[0] == '.') || (n == 2 && out[0] == '.' && out[1] == '.') {
        proof {
            if n == 1 {
                assert(out@ =~= seq!['.']);
            }
            if n == 2 {
                assert(out@ =~= seq!['.', '.']);
            }
        }
        None
    } else {
        proof {
            assert(out@ != seq!['.']) by {
                if n == 1 {
                    assert(out@[0] != '.');
                }
            }
            assert(out@ != seq!['.', '.']) by {
                if n == 2 {
                    assert(out@[0] != '.' || out@[1] != '.');
                }
            }
        }
        Some(string_of_chars(&out))
    }
}

/// The directory `p` sits in (see `parent_of`), or `None` at the root.
pub fn parent_dir(p: &str) -> (r: Option<String>)
    ensures
        match parent_of(p@) {
            Some(q) => r matches Some(s) && s@ == q,
            None => r is None,
        },
{
    let v = chars_of(p);
    assert(v@.take(v@.len() as int) =~= p@);
    let t = strip_run(&v, v.len(), true);
    if t == 0 {
        return None;
    }
    let rest = strip_run(&v, t, false);
    if rest == 0 {
        return Some(String::new());
    }
    proof {
        assert(v@.take(t as int).take(rest as int) =~= v@.take(rest as int));
    }
    let trimmed = strip_run(&v, rest, true);
    let mut out: Vec<char> = Vec::new();
    if trimmed == 0 {
        out.push('/');
        assert(out@ =~= seq!['/']);
        return Some(string_of_chars(&out));
    }
    let mut i: usize = 0;
    while i < trimmed
        invariant
            i <= trimmed <= v@.len(),
            out@ == v@.take(i as int),
        decreases trimmed - i,
    {
        out.push(v[i]);
        assert(v@.take(i + 1) =~= v@.take(i as int).push(v@[i as int]));
        i = i + 1;
    }
    Some(string_of_chars(&out))
}

} // verus!
