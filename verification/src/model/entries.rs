use vstd::prelude::*;

use crate::model::id::ObjectId;
use crate::model::order::{
    compare_names, lemma_name_lt_asymmetric, lemma_name_lt_irreflexive, lemma_name_lt_total,
    lemma_name_lt_transitive, name_lt, Rank,
};

verus! {

/// A name together with the id it maps to, as plain values.
pub type PairView = (Seq<char>, Seq<char>);

/// Keys strictly increasing: sorted, and no name twice.
pub open spec fn sorted_keys(s: Seq<PairView>) -> bool {
    forall|i: int, j: int| 0 <= i < j < s.len() ==> name_lt(#[trigger] s[i].0, #[trigger] s[j].0)
}

/// The map a sequence of pairs denotes; a later pair wins over an earlier
/// one with the same name.
pub open spec fn pairs_map(s: Seq<PairView>) -> Map<Seq<char>, Seq<char>>
    decreases s.len(),
{
    if s.len() == 0 {
        Map::empty()
    } else {
        pairs_map(s.drop_last()).insert(s.last().0, s.last().1)
    }
}

/// Inserting a sequence of pairs into a map, in order.
pub open spec fn insert_all(m: Map<Seq<char>, Seq<char>>, s: Seq<PairView>) -> Map<Seq<char>, Seq<char>>
    decreases s.len(),
{
    if s.len() == 0 {
        m
    } else {
        insert_all(m, s.drop_last()).insert(s.last().0, s.last().1)
    }
}

pub open spec fn pair_view(p: (String, ObjectId)) -> PairView {
    (p.0@, p.1@)
}

/// The entries of a directory-shaped object: names mapped to object ids,
/// kept sorted by name so that equal maps have one representation.
/// A sorted `Vec` rather than a `BTreeMap`: vstd specifies `BTreeMap` only
/// for key types whose ordering it knows to be lawful, and `String` keys
/// are not among them, so nothing could be proved of a map keyed by name.
#[derive(Debug)]
pub struct Entries {
    items: Vec<(String, ObjectId)>,
}

impl Entries {
    /// The entries in name order, as plain values.
    pub closed spec fn pairs(&self) -> Seq<PairView> {
        self.items@.map_values(|p: (String, ObjectId)| pair_view(p))
    }

    #[verifier::type_invariant]
    pub closed spec fn wf(&self) -> bool {
        sorted_keys(self.pairs())
    }
}

impl View for Entries {
    type V = Map<Seq<char>, Seq<char>>;

    open spec fn view(&self) -> Map<Seq<char>, Seq<char>> {
        pairs_map(self.pairs())
    }
}

/// In a sorted sequence, a name is a key of the denoted map exactly when
/// some pair carries it, and each pair's id is what the map holds for it.
pub proof fn lemma_pairs_map(s: Seq<PairView>)
    requires
        sorted_keys(s),
    ensures
        forall|k: Seq<char>| #[trigger] pairs_map(s).contains_key(k) <==> exists|i: int| 0 <= i < s.len() && s[i].0 == k,
        forall|i: int| 0 <= i < s.len() ==> #[trigger] pairs_map(s)[s[i].0] == s[i].1,
        pairs_map(s).dom().finite(),
    decreases s.len(),
{
    if s.len() > 0 {
        let t = s.drop_last();
        assert(sorted_keys(t)) by {
            assert forall|i: int, j: int| 0 <= i < j < t.len() implies name_lt(#[trigger] t[i].0, #[trigger] t[j].0) by {
                assert(t[i] == s[i] && t[j] == s[j]);
            }
        }
        lemma_pairs_map(t);
        assert forall|k: Seq<char>| #[trigger] pairs_map(s).contains_key(k) <==> exists|i: int| 0 <= i < s.len() && s[i].0 == k by {
            if pairs_map(s).contains_key(k) {
                if k == s.last().0 {
                    assert(s[s.len() - 1].0 == k);
                } else {
                    let i = choose|i: int| 0 <= i < t.len() && t[i].0 == k;
                    assert(s[i].0 == k);
                }
            }
            if exists|i: int| 0 <= i < s.len() && s[i].0 == k {
                let i = choose|i: int| 0 <= i < s.len() && s[i].0 == k;
                if i < s.len() - 1 {
                    assert(t[i].0 == k);
                }
            }
        }
        assert forall|i: int| 0 <= i < s.len() implies #[trigger] pairs_map(s)[s[i].0] == s[i].1 by {
            if i < s.len() - 1 {
                assert(name_lt(s[i].0, s[s.len() - 1].0));
                lemma_name_lt_irreflexive(s[i].0);
                assert(t[i] == s[i]);
            }
        }
    }
}

/// Two sorted sequences that denote the same map are the same sequence:
/// the sorted representation of a map is unique.
#[verifier::spinoff_prover]
pub proof fn lemma_sorted_pairs_canonical(a: Seq<PairView>, b: Seq<PairView>)
    requires
        sorted_keys(a),
        sorted_keys(b),
        pairs_map(a) == pairs_map(b),
    ensures
        a == b,
    decreases a.len() + b.len(),
{
    lemma_pairs_map(a);
    lemma_pairs_map(b);
    if a.len() == 0 || b.len() == 0 {
        if a.len() > 0 {
            assert(pairs_map(a).contains_key(a[0].0));
        }
        if b.len() > 0 {
            assert(pairs_map(b).contains_key(b[0].0));
        }
        assert(a =~= b);
    } else {
        let ka = a.last().0;
        let kb = b.last().0;
        assert(pairs_map(a).contains_key(ka));
        assert(pairs_map(b).contains_key(kb));
        let ja = choose|i: int| 0 <= i < b.len() && b[i].0 == ka;
        let jb = choose|i: int| 0 <= i < a.len() && a[i].0 == kb;
        if ka != kb {
            lemma_name_lt_total(ka, kb);
            lemma_name_lt_asymmetric(ka, kb);
            lemma_name_lt_irreflexive(ka);
            lemma_name_lt_irreflexive(kb);
            if ja < b.len() - 1 {
                assert(name_lt(b[ja].0, b[b.len() - 1].0));
            }
            if jb < a.len() - 1 {
                assert(name_lt(a[jb].0, a[a.len() - 1].0));
            }
            assert(false);
        }
        assert(a.last().1 == pairs_map(a)[ka]);
        assert(b[b.len() - 1].1 == pairs_map(b)[kb]);
        assert(a.last() == b.last());
        let ta = a.drop_last();
        let tb = b.drop_last();
        lemma_drop(a, a.len() - 1);
        lemma_drop(b, b.len() - 1);
        assert(a.remove(a.len() - 1) =~= ta);
        assert(b.remove(b.len() - 1) =~= tb);
        lemma_sorted_pairs_canonical(ta, tb);
        assert(a =~= ta.push(a.last()));
        assert(b =~= tb.push(b.last()));
    }
}


/// Updating or inserting one pair keeps a sequence sorted when it goes at
/// the position the search found for it, and the map changes by exactly
/// that one insertion.
proof fn lemma_place(s: Seq<PairView>, pos: int, p: PairView, replace: bool)
    requires
        sorted_keys(s),
        0 <= pos <= s.len(),
        forall|i: int| 0 <= i < pos ==> name_lt(#[trigger] s[i].0, p.0),
        replace ==> pos < s.len() && s[pos].0 == p.0,
        !replace ==> (pos < s.len() ==> name_lt(p.0, s[pos].0)),
    ensures
        ({
            let t = if replace { s.update(pos, p) } else { s.insert(pos, p) };
            sorted_keys(t) && pairs_map(t) == pairs_map(s).insert(p.0, p.1)
        }),
{
    let t = if replace { s.update(pos, p) } else { s.insert(pos, p) };
    assert forall|i: int, j: int| 0 <= i < j < t.len() implies name_lt(#[trigger] t[i].0, #[trigger] t[j].0) by {
        if replace {
            if j == pos {
                assert(name_lt(s[i].0, p.0));
            } else if i == pos {
                assert(name_lt(s[pos].0, s[j].0));
            } else {
                assert(name_lt(s[i].0, s[j].0));
            }
        } else {
            if i == pos {
                if pos < j {
                    assert(t[j] == s[j - 1]);
                    if j - 1 > pos {
                        assert(name_lt(s[pos].0, s[j - 1].0));
                        lemma_name_lt_transitive(p.0, s[pos].0, s[j - 1].0);
                    }
                }
            } else if j == pos {
                assert(name_lt(s[i].0, p.0));
            } else if i < pos && j < pos {
                assert(name_lt(s[i].0, s[j].0));
            } else if i < pos && j > pos {
                assert(t[j] == s[j - 1]);
                assert(name_lt(s[i].0, s[j - 1].0));
            } else {
                assert(t[i] == s[i - 1] && t[j] == s[j - 1]);
                assert(name_lt(s[i - 1].0, s[j - 1].0));
            }
        }
    }
    lemma_pairs_map(s);
    lemma_pairs_map(t);
    let m = pairs_map(s).insert(p.0, p.1);
    assert forall|k: Seq<char>| #[trigger] pairs_map(t).contains_key(k) <==> m.contains_key(k) by {
        if pairs_map(t).contains_key(k) {
            let i = choose|i: int| 0 <= i < t.len() && t[i].0 == k;
            if k != p.0 {
                if replace {
                    assert(s[i].0 == k);
                } else if i < pos {
                    assert(s[i].0 == k);
                } else {
                    assert(s[i - 1].0 == k);
                }
            }
        }
        if m.contains_key(k) {
            if k == p.0 {
                assert(t[pos].0 == k);
            } else {
                let i = choose|i: int| 0 <= i < s.len() && s[i].0 == k;
                if replace {
                    assert(t[i].0 == k);
                } else if i < pos {
                    assert(t[i].0 == k);
                } else {
                    assert(t[i + 1].0 == k);
                }
            }
        }
    }
    assert forall|k: Seq<char>| #[trigger] pairs_map(t).contains_key(k) implies pairs_map(t)[k] == m[k] by {
        let i = choose|i: int| 0 <= i < t.len() && t[i].0 == k;
        assert(pairs_map(t)[t[i].0] == t[i].1);
        if k != p.0 {
            if replace || i < pos {
                assert(t[i] == s[i]);
                assert(pairs_map(s)[s[i].0] == s[i].1);
            } else {
                assert(t[i] == s[i - 1]);
                assert(pairs_map(s)[s[i - 1].0] == s[i - 1].1);
            }
        } else {
            if i != pos {
                if i < pos {
                    assert(name_lt(t[i].0, t[pos].0));
                } else {
                    assert(name_lt(t[pos].0, t[i].0));
                }
                lemma_name_lt_irreflexive(k);
            }
        }
    }
    assert(pairs_map(t) =~= m);
}

proof fn lemma_drop(s: Seq<PairView>, pos: int)
    requires
        sorted_keys(s),
        0 <= pos < s.len(),
    ensures
        sorted_keys(s.remove(pos)),
        pairs_map(s.remove(pos)) == pairs_map(s).remove(s[pos].0),
{
    let t = s.remove(pos);
    let k0 = s[pos].0;
    assert forall|i: int, j: int| 0 <= i < j < t.len() implies name_lt(#[trigger] t[i].0, #[trigger] t[j].0) by {
        if j < pos {
            assert(name_lt(s[i].0, s[j].0));
        } else if i < pos {
            assert(t[j] == s[j + 1]);
            assert(name_lt(s[i].0, s[j + 1].0));
        } else {
            assert(t[i] == s[i + 1] && t[j] == s[j + 1]);
            assert(name_lt(s[i + 1].0, s[j + 1].0));
        }
    }
    lemma_pairs_map(s);
    lemma_pairs_map(t);
    let m = pairs_map(s).remove(k0);
    assert forall|k: Seq<char>| #[trigger] pairs_map(t).contains_key(k) <==> m.contains_key(k) by {
        if pairs_map(t).contains_key(k) {
            let i = choose|i: int| 0 <= i < t.len() && t[i].0 == k;
            let si = if i < pos { i } else { i + 1 };
            assert(s[si].0 == k);
            if si < pos {
                assert(name_lt(s[si].0, s[pos].0));
            } else {
                assert(name_lt(s[pos].0, s[si].0));
            }
            lemma_name_lt_irreflexive(k);
        }
        if m.contains_key(k) {
            let i = choose|i: int| 0 <= i < s.len() && s[i].0 == k;
            if i < pos {
                assert(t[i].0 == k);
            } else {
                assert(t[i - 1].0 == k);
            }
        }
    }
    assert forall|k: Seq<char>| #[trigger] pairs_map(t).contains_key(k) implies pairs_map(t)[k] == m[k] by {
        let i = choose|i: int| 0 <= i < t.len() && t[i].0 == k;
        assert(pairs_map(t)[t[i].0] == t[i].1);
        if i < pos {
            assert(pairs_map(s)[s[i].0] == s[i].1);
        } else {
            assert(pairs_map(s)[s[i + 1].0] == s[i + 1].1);
        }
    }
    assert(pairs_map(t) =~= m);
}

impl Entries {
    /// No entries.
    pub fn new() -> (e: Entries)
        ensures
            e@ == Map::<Seq<char>, Seq<char>>::empty(),
            e.pairs().len() == 0,
    {
        let e = Entries { items: Vec::new() };
        assert(e.pairs() =~= Seq::<PairView>::empty());
        e
    }

    /// How many entries there are.
    pub fn len(&self) -> (n: usize)
        ensures
            n == self.pairs().len(),
    {
        self.items.len()
    }

    /// The name of the `i`-th entry, in name order.
    pub fn name_at(&self, i: usize) -> (name: &String)
        requires
            i < self.pairs().len(),
        ensures
            name@ == self.pairs()[i as int].0,
    {
        &self.items[i].0
    }

    /// The id of the `i`-th entry, in name order.
    pub fn id_at(&self, i: usize) -> (id: &ObjectId)
        requires
            i < self.pairs().len(),
        ensures
            id@ == self.pairs()[i as int].1,
    {
        &self.items[i].1
    }

    /// Where `name` is, or would go: every name before the position sorts
    /// before it, and the flag says whether the name is there.
    fn search(&self, name: &str) -> (r: (usize, bool))
        ensures
            r.0 <= self.pairs().len(),
            forall|i: int| 0 <= i < r.0 ==> name_lt(#[trigger] self.pairs()[i].0, name@),
            r.1 ==> r.0 < self.pairs().len() && self.pairs()[r.0 as int].0 == name@,
            !r.1 ==> (r.0 < self.pairs().len() ==> name_lt(name@, self.pairs()[r.0 as int].0)),
    {
        let n = self.items.len();
        let mut i: usize = 0;
        while i < n
            invariant
                n == self.pairs().len(),
                i <= n,
                forall|j: int| 0 <= j < i ==> name_lt(#[trigger] self.pairs()[j].0, name@),
            decreases n - i,
        {
            let r = compare_names(self.items[i].0.as_str(), name);
            assert(self.pairs()[i as int] == pair_view(self.items@[i as int]));
            match r {
                Rank::Before => {},
                Rank::Same => {
                    return (i, true);
                },
                Rank::After => {
                    return (i, false);
                },
            }
            i = i + 1;
        }
        (n, false)
    }

    /// The id bound to `name`, if there is one.
    pub fn get(&self, name: &str) -> (r: Option<&ObjectId>)
        ensures
            r is Some <==> self@.contains_key(name@),
            r matches Some(id) ==> id@ == self@[name@],
    {
        proof {
            use_type_invariant(self);
            lemma_pairs_map(self.pairs());
        }
        let (pos, found) = self.search(name);
        if found {
            Some(&self.items[pos].1)
        } else {
            proof {
                if self@.contains_key(name@) {
                    let i = choose|i: int| 0 <= i < self.pairs().len() && self.pairs()[i].0 == name@;
                    if i < pos {
                        lemma_name_lt_irreflexive(name@);
                    } else if i > pos {
                        assert(name_lt(self.pairs()[pos as int].0, self.pairs()[i].0));
                        lemma_name_lt_asymmetric(name@, self.pairs()[pos as int].0);
                    } else {
                        lemma_name_lt_irreflexive(name@);
                    }
                }
            }
            None
        }
    }

    /// Binds `name` to `id`, replacing what the name was bound to before.
    pub fn insert(&mut self, name: String, id: ObjectId)
        ensures
            final(self)@ == old(self)@.insert(name@, id@),
    {
        proof {
            use_type_invariant(&*self);
        }
        let (pos, found) = self.search(name.as_str());
        let ghost s = self.pairs();
        let ghost p = (name@, id@);
        proof {
            lemma_place(s, pos as int, p, found);
        }
        let mut items: Vec<(String, ObjectId)> = Vec::new();
        std::mem::swap(&mut items, &mut self.items);
        if found {
            items.remove(pos);
        }
        items.insert(pos, (name, id));
        proof {
            let t = if found { s.update(pos as int, p) } else { s.insert(pos as int, p) };
            assert(items@.map_values(|q: (String, ObjectId)| pair_view(q)) =~= t);
        }
        self.items = items;
    }

    /// Unbinds `name`, giving back the id it was bound to, if any.
    pub fn remove(&mut self, name: &str) -> (r: Option<ObjectId>)
        ensures
            final(self)@ == old(self)@.remove(name@),
            r is Some <==> old(self)@.contains_key(name@),
            r matches Some(id) ==> id@ == old(self)@[name@],
    {
        proof {
            use_type_invariant(&*self);
            lemma_pairs_map(self.pairs());
        }
        let (pos, found) = self.search(name);
        let ghost s = self.pairs();
        if found {
            proof {
                lemma_drop(s, pos as int);
            }
            let mut items: Vec<(String, ObjectId)> = Vec::new();
            std::mem::swap(&mut items, &mut self.items);
            let (_, id) = items.remove(pos);
            proof {
                assert(items@.map_values(|q: (String, ObjectId)| pair_view(q)) =~= s.remove(pos as int));
            }
            self.items = items;
            Some(id)
        } else {
            proof {
                if old(self)@.contains_key(name@) {
                    let i = choose|i: int| 0 <= i < s.len() && s[i].0 == name@;
                    if i < pos {
                        lemma_name_lt_irreflexive(name@);
                    } else if i > pos {
                        assert(name_lt(s[pos as int].0, s[i].0));
                        lemma_name_lt_asymmetric(name@, s[pos as int].0);
                    } else {
                        lemma_name_lt_irreflexive(name@);
                    }
                }
                assert(old(self)@.remove(name@) =~= old(self)@);
            }
            None
        }
    }
}

impl Entries {
    /// Builds entries by binding each pair in order; a later pair wins
    /// over an earlier one with the same name.
    pub fn from_pairs(pairs: &Vec<(String, ObjectId)>) -> (e: Entries)
        ensures
            e@ == insert_all(Map::empty(), pairs@.map_values(|p: (String, ObjectId)| pair_view(p))),
    {
        let mut e = Entries::new();
        e.insert_pairs(pairs);
        e
    }

    /// Binds each pair in order; a later pair wins over an earlier one
    /// with the same name, and over what the name was bound to before.
    pub fn insert_pairs(&mut self, pairs: &Vec<(String, ObjectId)>)
        ensures
            final(self)@ == insert_all(old(self)@, pairs@.map_values(|p: (String, ObjectId)| pair_view(p))),
    {
        let ghost sv = pairs@.map_values(|p: (String, ObjectId)| pair_view(p));
        let ghost start = self@;
        let n = pairs.len();
        let mut i: usize = 0;
        assert(sv.take(0) =~= Seq::<PairView>::empty());
        while i < n
            invariant
                n == pairs@.len(),
                sv == pairs@.map_values(|p: (String, ObjectId)| pair_view(p)),
                i <= n,
                self@ == insert_all(start, sv.take(i as int)),
            decreases n - i,
        {
            let name = pairs[i].0.clone();
            let id = pairs[i].1.clone();
            self.insert(name, id);
            proof {
                assert(sv.take(i + 1).drop_last() =~= sv.take(i as int));
                assert(sv.take(i + 1).last() == sv[i as int]);
            }
            i = i + 1;
        }
        assert(sv.take(n as int) =~= sv);
    }
}

impl Clone for Entries {
    fn clone(&self) -> (r: Self)
        ensures
            r.pairs() == self.pairs(),
            r@ == self@,
    {
        proof {
            use_type_invariant(self);
        }
        let mut items: Vec<(String, ObjectId)> = Vec::new();
        let n = self.items.len();
        let mut i: usize = 0;
        while i < n
            invariant
                n == self.items@.len(),
                i <= n,
                items@.map_values(|p: (String, ObjectId)| pair_view(p)) =~= self.pairs().take(i as int),
            decreases n - i,
        {
            let name = self.items[i].0.clone();
            let id = self.items[i].1.clone();
            let ghost q = (name, id);
            let ghost before = items@;
            proof {
                assert(self.pairs()[i as int] == pair_view(self.items@[i as int]));
                assert(pair_view(q) == self.pairs()[i as int]);
            }
            items.push((name, id));
            proof {
                assert(items@ == before.push(q));
                assert(items@.map_values(|p: (String, ObjectId)| pair_view(p)) =~= before.map_values(|p: (String, ObjectId)| pair_view(p)).push(pair_view(q)));
                assert(self.pairs().take(i + 1) =~= self.pairs().take(i as int).push(self.pairs()[i as int]));
                assert(items@.map_values(|p: (String, ObjectId)| pair_view(p)) =~= self.pairs().take(i + 1));
            }
            i = i + 1;
        }
        proof {
            assert(self.pairs().take(n as int) =~= self.pairs());
        }
        Entries { items }
    }
}

/// No name occurs twice.
pub open spec fn distinct_names(s: Seq<PairView>) -> bool {
    forall|i: int, j: int| 0 <= i < j < s.len() ==> #[trigger] s[i].0 != #[trigger] s[j].0
}

/// With distinct names, binding a sequence of pairs into a map keeps what
/// the map had for other names and binds each pair's name to its id.
pub proof fn lemma_insert_all_distinct(m: Map<Seq<char>, Seq<char>>, s: Seq<PairView>)
    requires
        distinct_names(s),
    ensures
        forall|i: int| 0 <= i < s.len() ==> #[trigger] insert_all(m, s).contains_key(s[i].0)
            && insert_all(m, s)[s[i].0] == s[i].1,
        forall|k: Seq<char>|
            (forall|i: int| 0 <= i < s.len() ==> #[trigger] s[i].0 != k) ==> (#[trigger] insert_all(
                m,
                s,
            ).contains_key(k) == m.contains_key(k) && (m.contains_key(k) ==> insert_all(m, s)[k]
                == m[k])),
    decreases s.len(),
{
    if s.len() > 0 {
        let t = s.drop_last();
        assert(distinct_names(t)) by {
            assert forall|i: int, j: int| 0 <= i < j < t.len() implies #[trigger] t[i].0 != #[trigger] t[j].0 by {
                assert(t[i] == s[i] && t[j] == s[j]);
            }
        }
        lemma_insert_all_distinct(m, t);
        let last = s.last();
        assert(insert_all(m, s) == insert_all(m, t).insert(last.0, last.1));
        assert forall|i: int| 0 <= i < s.len() implies #[trigger] insert_all(m, s).contains_key(s[i].0)
            && insert_all(m, s)[s[i].0] == s[i].1 by {
            if i < s.len() - 1 {
                assert(s[i].0 != s[s.len() - 1].0);
                assert(t[i] == s[i]);
                assert(insert_all(m, t).contains_key(t[i].0) && insert_all(m, t)[t[i].0] == t[i].1);
            }
        }
        assert forall|k: Seq<char>|
            (forall|i: int| 0 <= i < s.len() ==> #[trigger] s[i].0 != k) implies (#[trigger] insert_all(
                m,
                s,
            ).contains_key(k) == m.contains_key(k) && (m.contains_key(k) ==> insert_all(m, s)[k]
                == m[k])) by {
            assert(s[s.len() - 1].0 != k);
            assert forall|i: int| 0 <= i < t.len() implies #[trigger] t[i].0 != k by {
                assert(t[i] == s[i]);
            }
            assert(insert_all(m, t).contains_key(k) == m.contains_key(k));
        }
    }
}

/// Binding the same pairs in another order binds the same map, as long as
/// no name occurs twice.
pub proof fn lemma_binding_order_irrelevant(m: Map<Seq<char>, Seq<char>>, s: Seq<PairView>, t: Seq<PairView>)
    requires
        distinct_names(s),
        distinct_names(t),
        s.to_set() == t.to_set(),
    ensures
        insert_all(m, s) == insert_all(m, t),
{
    lemma_insert_all_distinct(m, s);
    lemma_insert_all_distinct(m, t);
    let a = insert_all(m, s);
    let b = insert_all(m, t);
    assert forall|k: Seq<char>| #[trigger] a.contains_key(k) == b.contains_key(k) && (a.contains_key(k) ==> a[k] == b[k]) by {
        if exists|i: int| 0 <= i < s.len() && s[i].0 == k {
            let i = choose|i: int| 0 <= i < s.len() && s[i].0 == k;
            assert(s.to_set().contains(s[i]));
            assert(t.to_set().contains(s[i]));
            let j = choose|j: int| 0 <= j < t.len() && t[j] == s[i];
            assert(t[j].0 == k);
        } else if exists|j: int| 0 <= j < t.len() && t[j].0 == k {
            let j = choose|j: int| 0 <= j < t.len() && t[j].0 == k;
            assert(t.to_set().contains(t[j]));
            assert(s.to_set().contains(t[j]));
            let i = choose|i: int| 0 <= i < s.len() && s[i] == t[j];
            assert(s[i].0 == k);
        } else {
            assert forall|i: int| 0 <= i < s.len() implies #[trigger] s[i].0 != k by {}
            assert forall|j: int| 0 <= j < t.len() implies #[trigger] t[j].0 != k by {}
        }
    }
    assert(a =~= b);
}

/// Two entry sets that map the same names to the same ids have the same
/// entries in the same order: how the entries were built (in which order
/// names were bound) leaves no trace.
pub proof fn lemma_entries_canonical(a: Entries, b: Entries)
    requires
        a.wf(),
        b.wf(),
        a@ == b@,
    ensures
        a.pairs() == b.pairs(),
{
    lemma_sorted_pairs_canonical(a.pairs(), b.pairs());
}

/// Well-formed entries are sorted by name, with no name twice.
pub proof fn lemma_entries_sorted(e: Entries)
    requires
        e.wf(),
    ensures
        sorted_keys(e.pairs()),
{
}

} // verus!
