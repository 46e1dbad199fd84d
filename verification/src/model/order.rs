use vstd::prelude::*;

verus! {

/// Lexicographic order on names, character by character. Since UTF-8
/// keeps code-point order, this is the byte order `String`'s `Ord` uses,
/// so entries come out in the order a `BTreeMap<String, _>` keeps them.
pub open spec fn name_lt(a: Seq<char>, b: Seq<char>) -> bool
    decreases a.len(),
{
    if a.len() == 0 {
        b.len() > 0
    } else if b.len() == 0 {
        false
    } else if a[0] != b[0] {
        a[0] < b[0]
    } else {
        name_lt(a.drop_first(), b.drop_first())
    }
}

/// No name sorts before itself.
pub proof fn lemma_name_lt_irreflexive(a: Seq<char>)
    ensures
        !name_lt(a, a),
    decreases a.len(),
{
    if a.len() > 0 {
        lemma_name_lt_irreflexive(a.drop_first());
    }
}

/// Two names never sort before each other.
pub proof fn lemma_name_lt_asymmetric(a: Seq<char>, b: Seq<char>)
    ensures
        name_lt(a, b) ==> !name_lt(b, a),
    decreases a.len(),
{
    if a.len() > 0 && b.len() > 0 && a[0] == b[0] {
        lemma_name_lt_asymmetric(a.drop_first(), b.drop_first());
    }
}

/// Sorting before is transitive.
pub proof fn lemma_name_lt_transitive(a: Seq<char>, b: Seq<char>, c: Seq<char>)
    ensures
        name_lt(a, b) && name_lt(b, c) ==> name_lt(a, c),
    decreases a.len(),
{
    if a.len() > 0 && b.len() > 0 && c.len() > 0 {
        lemma_name_lt_transitive(a.drop_first(), b.drop_first(), c.drop_first());
    }
}

/// Of two different names, one sorts before the other.
pub proof fn lemma_name_lt_total(a: Seq<char>, b: Seq<char>)
    ensures
        a == b || name_lt(a, b) || name_lt(b, a),
    decreases a.len(),
{
    if a.len() == 0 && b.len() == 0 {
        assert(a =~= b);
    } else if a.len() > 0 && b.len() > 0 && a[0] == b[0] {
        lemma_name_lt_total(a.drop_first(), b.drop_first());
        if a.drop_first() == b.drop_first() {
            assert(a =~= seq![a[0]] + a.drop_first());
            assert(b =~= seq![b[0]] + b.drop_first());
        }
    }
}

/// Names are ordered by their first differing character: where `a` and
/// `b` agree before position `i` and differ at `i`, `a` sorts first
/// exactly when its character there is the smaller code point (which is
/// the smaller UTF-8 byte sequence), whatever follows.
pub proof fn lemma_name_lt_first_difference(a: Seq<char>, b: Seq<char>, i: int)
    requires
        0 <= i < a.len(),
        i < b.len(),
        forall|j: int| 0 <= j < i ==> a[j] == b[j],
        a[i] != b[i],
    ensures
        name_lt(a, b) <==> (a[i] as int) < (b[i] as int),
    decreases i,
{
    if i > 0 {
        assert forall|j: int| 0 <= j < i - 1 implies a.drop_first()[j] == b.drop_first()[j] by {
            assert(a[j + 1] == b[j + 1]);
        }
        lemma_name_lt_first_difference(a.drop_first(), b.drop_first(), i - 1);
        assert(a[0] == b[0]);
    }
}

/// A proper prefix sorts before the names it begins.
pub proof fn lemma_name_lt_prefix(a: Seq<char>, b: Seq<char>)
    requires
        a.len() < b.len(),
        forall|j: int| 0 <= j < a.len() ==> a[j] == b[j],
    ensures
        name_lt(a, b),
        !name_lt(b, a),
    decreases a.len(),
{
    if a.len() > 0 {
        assert forall|j: int| 0 <= j < a.len() - 1 implies a.drop_first()[j] == b.drop_first()[j] by {
            assert(a[j + 1] == b[j + 1]);
        }
        lemma_name_lt_prefix(a.drop_first(), b.drop_first());
        assert(a[0] == b[0]);
    }
}

/// Where one name stands relative to another.
#[derive(Debug, Clone, Copy, PartialEq, Eq, Structural)]
pub enum Rank {
    Before,
    Same,
    After,
}

/// The characters of a string, in order.
pub fn chars_of(s: &str) -> (v: Vec<char>)
    ensures
        v@ == s@,
{
    broadcast use vstd::string::group_string_axioms;
    let mut v: Vec<char> = Vec::new();
    for c in it: s.chars()
        invariant
            it.seq() == s@,
            v@ == s@.take(it.index() as int),
    {
        v.push(c);
        assert(s@.take(it.index() + 1) =~= s@.take(it.index() as int).push(c));
    }
    assert(s@.take(s@.len() as int) =~= s@);
    v
}

proof fn lemma_name_lt_skip(a: Seq<char>, b: Seq<char>, i: int)
    requires
        0 <= i < a.len(),
        i < b.len(),
        a[i] == b[i],
    ensures
        name_lt(a.skip(i), b.skip(i)) == name_lt(a.skip(i + 1), b.skip(i + 1)),
{
    assert(a.skip(i).drop_first() =~= a.skip(i + 1));
    assert(b.skip(i).drop_first() =~= b.skip(i + 1));
}

/// Compares two names in the order `name_lt` defines.
pub fn compare_names(a: &str, b: &str) -> (r: Rank)
    ensures
        (r == Rank::Before) == name_lt(a@, b@),
        (r == Rank::Same) == (a@ == b@),
        (r == Rank::After) == name_lt(b@, a@),
{
    let va = chars_of(a);
    let vb = chars_of(b);
    proof {
        lemma_name_lt_asymmetric(a@, b@);
        lemma_name_lt_irreflexive(a@);
        lemma_name_lt_total(a@, b@);
        assert(a@.skip(0) =~= a@);
        assert(b@.skip(0) =~= b@);
    }
    let mut i: usize = 0;
    while i < va.len() && i < vb.len()
        invariant
            va@ == a@,
            vb@ == b@,
            i <= va.len(),
            i <= vb.len(),
            a@.take(i as int) == b@.take(i as int),
            name_lt(a@, b@) == name_lt(a@.skip(i as int), b@.skip(i as int)),
            name_lt(b@, a@) == name_lt(b@.skip(i as int), a@.skip(i as int)),
        decreases va.len() - i,
    {
        if va[i] != vb[i] {
            proof {
                assert(a@.skip(i as int)[0] == a@[i as int]);
                assert(b@.skip(i as int)[0] == b@[i as int]);
                assert(a@ != b@);
                assert(a@.skip(i as int).len() > 0);
                assert(b@.skip(i as int).len() > 0);
                assert(a@.skip(i as int)[0] != b@.skip(i as int)[0]);
            }
            if va[i] < vb[i] {
                return Rank::Before;
            } else {
                return Rank::After;
            }
        }
        proof {
            lemma_name_lt_skip(a@, b@, i as int);
            lemma_name_lt_skip(b@, a@, i as int);
            assert(a@.take(i + 1) =~= a@.take(i as int).push(a@[i as int]));
            assert(b@.take(i + 1) =~= b@.take(i as int).push(b@[i as int]));
        }
        i = i + 1;
    }
    proof {
        if i == va.len() {
            assert(a@ =~= a@.take(i as int));
        }
        if i == vb.len() {
            assert(b@ =~= b@.take(i as int));
        }
        if i == va.len() && i == vb.len() {
            assert(a@ == b@);
        }
        if i == va.len() && i < vb.len() {
            assert(a@ =~= b@.take(i as int));
            assert(a@ != b@) by {
                assert(a@.len() != b@.len());
            }
        }
        if i < va.len() && i == vb.len() {
            assert(a@.len() != b@.len());
        }
    }
    if va.len() == vb.len() {
        Rank::Same
    } else if va.len() < vb.len() {
        Rank::Before
    } else {
        Rank::After
    }
}

} // verus!
