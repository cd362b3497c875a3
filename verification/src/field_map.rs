//! The ordered field map that inbound form payloads are parsed into.
//!
//! Keys keep the order in which they were first inserted, and a second
//! insertion of a key replaces its value in place (last write wins). Both
//! points matter: the webhook signing string is built from the map in
//! iteration order, so re-sorting or duplicating keys would change it.

use vstd::prelude::*;
use vstd::string::StrSliceExecFns;
use vstd::string::StringExecFns;

verus! {

/// Insertion into an ordered key/value sequence: the first pair with the
/// same key has its value replaced in place; a fresh key goes to the end.
pub open spec fn fm_insert(
    m: Seq<(Seq<char>, Seq<char>)>,
    k: Seq<char>,
    v: Seq<char>,
) -> Seq<(Seq<char>, Seq<char>)>
    decreases m.len(),
{
    if m.len() == 0 {
        seq![(k, v)]
    } else if m.first().0 == k {
        seq![(k, v)] + m.drop_first()
    } else {
        seq![m.first()] + fm_insert(m.drop_first(), k, v)
    }
}

/// The map built by inserting the given pairs left to right into an empty map.
pub open spec fn fm_from_pairs(ps: Seq<(Seq<char>, Seq<char>)>) -> Seq<(Seq<char>, Seq<char>)>
    decreases ps.len(),
{
    if ps.len() == 0 {
        Seq::empty()
    } else {
        fm_insert(fm_from_pairs(ps.drop_last()), ps.last().0, ps.last().1)
    }
}

/// The value stored under a key: the first pair whose key matches.
pub open spec fn fm_lookup(m: Seq<(Seq<char>, Seq<char>)>, k: Seq<char>) -> Option<Seq<char>>
    decreases m.len(),
{
    if m.len() == 0 {
        None
    } else if m.first().0 == k {
        Some(m.first().1)
    } else {
        fm_lookup(m.drop_first(), k)
    }
}

/// No key occurs twice.
pub open spec fn fm_unique_keys(m: Seq<(Seq<char>, Seq<char>)>) -> bool {
    forall|i: int, j: int| 0 <= i < j < m.len() ==> m[i].0 != m[j].0
}

/// The concatenation, in map order, of each key immediately followed by its
/// value: the suffix of the canonical string signed for POST webhooks.
pub open spec fn fm_suffix(m: Seq<(Seq<char>, Seq<char>)>) -> Seq<char>
    decreases m.len(),
{
    if m.len() == 0 {
        Seq::empty()
    } else {
        fm_suffix(m.drop_last()) + m.last().0 + m.last().1
    }
}

/// An ordered mapping from field name to field value, as parsed out of a
/// query string or a form-urlencoded body.
pub struct FieldMap {
    pairs: Vec<(String, String)>,
}

impl View for FieldMap {
    type V = Seq<(Seq<char>, Seq<char>)>;

    closed spec fn view(&self) -> Seq<(Seq<char>, Seq<char>)> {
        self.pairs.deep_view()
    }
}

/// Character-by-character string equality, so that contracts can speak of
/// the views directly.
pub fn str_eq(a: &str, b: &str) -> (r: bool)
    ensures
        r == (a@ == b@),
{
    let alen = a.unicode_len();
    let blen = b.unicode_len();
    if alen != blen {
        return false;
    }
    let mut i: usize = 0;
    while i < alen
        invariant
            i <= alen,
            alen == a@.len(),
            alen == b@.len(),
            forall|j: int| 0 <= j < i ==> a@[j] == b@[j],
        decreases alen - i,
    {
        if a.get_char(i) != b.get_char(i) {
            return false;
        }
        i += 1;
    }
    proof {
        assert(a@ =~= b@);
    }
    true
}

/// Replacing the first occurrence of a key present at position `i` is what
/// `fm_insert` does when everything before `i` has another key.
proof fn lemma_fm_insert_at(m: Seq<(Seq<char>, Seq<char>)>, k: Seq<char>, v: Seq<char>, i: int)
    requires
        0 <= i < m.len(),
        m[i].0 == k,
        forall|j: int| 0 <= j < i ==> m[j].0 != k,
    ensures
        fm_insert(m, k, v) == m.update(i, (k, v)),
    decreases i,
{
    if i == 0 {
        assert(fm_insert(m, k, v) == seq![(k, v)] + m.drop_first());
        assert(seq![(k, v)] + m.drop_first() =~= m.update(0, (k, v)));
    } else {
        assert(m.drop_first()[i - 1].0 == k);
        lemma_fm_insert_at(m.drop_first(), k, v, i - 1);
        assert(seq![m.first()] + m.drop_first().update(i - 1, (k, v)) =~= m.update(i, (k, v)));
    }
}

/// Inserting a key that is absent appends the pair at the end.
proof fn lemma_fm_insert_absent(m: Seq<(Seq<char>, Seq<char>)>, k: Seq<char>, v: Seq<char>)
    requires
        forall|j: int| 0 <= j < m.len() ==> m[j].0 != k,
    ensures
        fm_insert(m, k, v) == m.push((k, v)),
    decreases m.len(),
{
    if m.len() == 0 {
        assert(fm_insert(m, k, v) =~= m.push((k, v)));
    } else {
        assert(forall|j: int|
            0 <= j < m.drop_first().len() ==> m.drop_first()[j].0 != k);
        lemma_fm_insert_absent(m.drop_first(), k, v);
        assert(seq![m.first()] + m.drop_first().push((k, v)) =~= m.push((k, v)));
    }
}

/// Law: after an insertion the inserted key holds the inserted value.
pub proof fn lemma_fm_insert_lookup_same(
    m: Seq<(Seq<char>, Seq<char>)>,
    k: Seq<char>,
    v: Seq<char>,
)
    ensures
        fm_lookup(fm_insert(m, k, v), k) == Some(v),
    decreases m.len(),
{
    if m.len() == 0 {
    } else if m.first().0 == k {
        assert((seq![(k, v)] + m.drop_first()).first() == (k, v));
    } else {
        lemma_fm_insert_lookup_same(m.drop_first(), k, v);
        assert((seq![m.first()] + fm_insert(m.drop_first(), k, v)).drop_first()
            =~= fm_insert(m.drop_first(), k, v));
    }
}

/// Law: an insertion leaves every other key's value as it was.
pub proof fn lemma_fm_insert_lookup_other(
    m: Seq<(Seq<char>, Seq<char>)>,
    k: Seq<char>,
    v: Seq<char>,
    k2: Seq<char>,
)
    requires
        k2 != k,
    ensures
        fm_lookup(fm_insert(m, k, v), k2) == fm_lookup(m, k2),
    decreases m.len(),
{
    if m.len() == 0 {
        assert(seq![(k, v)].first() == (k, v));
        assert(seq![(k, v)].drop_first() =~= m);
    } else if m.first().0 == k {
        assert((seq![(k, v)] + m.drop_first()).first() == (k, v));
        assert((seq![(k, v)] + m.drop_first()).drop_first() =~= m.drop_first());
    } else {
        lemma_fm_insert_lookup_other(m.drop_first(), k, v, k2);
        assert((seq![m.first()] + fm_insert(m.drop_first(), k, v)).first() == m.first());
        assert((seq![m.first()] + fm_insert(m.drop_first(), k, v)).drop_first()
            =~= fm_insert(m.drop_first(), k, v));
    }
}

/// Law: insertion keeps keys unique.
pub proof fn lemma_fm_insert_unique(m: Seq<(Seq<char>, Seq<char>)>, k: Seq<char>, v: Seq<char>)
    requires
        fm_unique_keys(m),
    ensures
        fm_unique_keys(fm_insert(m, k, v)),
    decreases m.len(),
{
    if m.len() == 0 {
    } else if m.first().0 == k {
        let r = seq![(k, v)] + m.drop_first();
        assert forall|i: int, j: int| 0 <= i < j < r.len() implies r[i].0 != r[j].0 by {
            assert(m.drop_first()[j - 1] == m[j]);
            if i > 0 {
                assert(m.drop_first()[i - 1] == m[i]);
            }
        }
    } else {
        assert(forall|i: int, j: int|
            0 <= i < j < m.drop_first().len() ==> m.drop_first()[i].0 != m.drop_first()[j].0);
        lemma_fm_insert_unique(m.drop_first(), k, v);
        lemma_fm_insert_keys(m.drop_first(), k, v);
        let r = seq![m.first()] + fm_insert(m.drop_first(), k, v);
        assert forall|i: int, j: int| 0 <= i < j < r.len() implies r[i].0 != r[j].0 by {
            if i == 0 {
                assert(fm_insert(m.drop_first(), k, v).contains(r[j]));
            }
        }
    }
}

/// Every pair of an insertion result either was in the map or carries the
/// inserted key.
proof fn lemma_fm_insert_keys(m: Seq<(Seq<char>, Seq<char>)>, k: Seq<char>, v: Seq<char>)
    ensures
        forall|p: (Seq<char>, Seq<char>)|
            #[trigger] fm_insert(m, k, v).contains(p) ==> m.contains(p) || p.0 == k,
    decreases m.len(),
{
    if m.len() == 0 {
    } else if m.first().0 == k {
        assert forall|p: (Seq<char>, Seq<char>)|
            #[trigger] fm_insert(m, k, v).contains(p) implies m.contains(p) || p.0 == k by {
            let r = seq![(k, v)] + m.drop_first();
            if r.contains(p) {
                let i = choose|i: int| 0 <= i < r.len() && r[i] == p;
                if i > 0 {
                    assert(m[i] == p);
                }
            }
        }
    } else {
        lemma_fm_insert_keys(m.drop_first(), k, v);
        assert forall|p: (Seq<char>, Seq<char>)|
            #[trigger] fm_insert(m, k, v).contains(p) implies m.contains(p) || p.0 == k by {
            let r = seq![m.first()] + fm_insert(m.drop_first(), k, v);
            if r.contains(p) {
                let i = choose|i: int| 0 <= i < r.len() && r[i] == p;
                if i == 0 {
                    assert(m[0] == p);
                } else {
                    assert(fm_insert(m.drop_first(), k, v).contains(p));
                    if m.drop_first().contains(p) {
                        let j = choose|j: int|
                            0 <= j < m.drop_first().len() && m.drop_first()[j] == p;
                        assert(m[j + 1] == p);
                    }
                }
            }
        }
    }
}

/// Law: a map built from a pair list has unique keys, whatever the list held.
pub proof fn lemma_fm_from_pairs_unique(ps: Seq<(Seq<char>, Seq<char>)>)
    ensures
        fm_unique_keys(fm_from_pairs(ps)),
    decreases ps.len(),
{
    if ps.len() == 0 {
    } else {
        lemma_fm_from_pairs_unique(ps.drop_last());
        lemma_fm_insert_unique(fm_from_pairs(ps.drop_last()), ps.last().0, ps.last().1);
    }
}

impl FieldMap {
    /// The empty map.
    pub fn new() -> (r: FieldMap)
        ensures
            r@ == Seq::<(Seq<char>, Seq<char>)>::empty(),
    {
        let r = FieldMap { pairs: Vec::new() };
        proof {
            assert(r@ =~= Seq::<(Seq<char>, Seq<char>)>::empty());
        }
        r
    }

    /// How many fields the map holds.
    pub fn len(&self) -> (r: usize)
        ensures
            r == self@.len(),
    {
        self.pairs.len()
    }

    /// Insert a field: replaces the value of an existing key in place,
    /// appends a fresh key at the end.
    pub fn insert(&mut self, k: String, v: String)
        ensures
            final(self)@ == fm_insert(old(self)@, k@, v@),
    {
        let n = self.pairs.len();
        let mut i: usize = 0;
        while i < n
            invariant
                i <= n,
                n == self.pairs.len(),
                self@ == old(self)@,
                self.pairs == old(self).pairs,
                forall|j: int| 0 <= j < i ==> self@[j].0 != k@,
            decreases n - i,
        {
            if str_eq(self.pairs[i].0.as_str(), k.as_str()) {
                proof {
                    lemma_fm_insert_at(self@, k@, v@, i as int);
                }
                self.pairs.set(i, (k, v));
                proof {
                    assert(self@ =~= old(self)@.update(i as int, (k@, v@)));
                }
                return ;
            }
            i += 1;
        }
        proof {
            lemma_fm_insert_absent(self@, k@, v@);
        }
        self.pairs.push((k, v));
        proof {
            assert(self@ =~= old(self)@.push((k@, v@)));
        }
    }

    /// Build a map from `(name, value)` pairs in encounter order, later
    /// occurrences of a key overwriting earlier ones.
    pub fn from_pairs(ps: &Vec<(String, String)>) -> (r: FieldMap)
        ensures
            r@ == fm_from_pairs(ps.deep_view()),
    {
        let mut r = FieldMap::new();
        let n = ps.len();
        let mut i: usize = 0;
        while i < n
            invariant
                i <= n,
                n == ps.len(),
                r@ == fm_from_pairs(ps.deep_view().subrange(0, i as int)),
            decreases n - i,
        {
            let k = ps[i].0.clone();
            let v = ps[i].1.clone();
            r.insert(k, v);
            proof {
                let pv = ps.deep_view();
                assert(pv.subrange(0, i + 1).drop_last() =~= pv.subrange(0, i as int));
                assert(pv.subrange(0, i + 1).last() == pv[i as int]);
            }
            i += 1;
        }
        proof {
            assert(ps.deep_view().subrange(0, n as int) =~= ps.deep_view());
        }
        r
    }

    /// The value under a key, if any.
    pub fn get(&self, k: &str) -> (r: Option<&String>)
        ensures
            match r {
                Some(v) => fm_lookup(self@, k@) == Some(v@),
                None => fm_lookup(self@, k@) is None,
            },
    {
        let n = self.pairs.len();
        proof {
            assert(self@.subrange(0, n as int) =~= self@);
        }
        let mut i: usize = 0;
        while i < n
            invariant
                i <= n,
                n == self.pairs.len(),
                fm_lookup(self@, k@) == fm_lookup(self@.subrange(i as int, n as int), k@),
            decreases n - i,
        {
            if str_eq(self.pairs[i].0.as_str(), k) {
                proof {
                    assert(self@.subrange(i as int, n as int).first() == self@[i as int]);
                }
                return Some(&self.pairs[i].1);
            }
            proof {
                assert(self@.subrange(i as int, n as int).drop_first()
                    =~= self@.subrange(i + 1, n as int));
            }
            i += 1;
        }
        None
    }

    /// Append to `out`, in map order, each key immediately followed by its
    /// value: the signed suffix for POST webhooks.
    pub fn append_suffix(&self, out: &mut String)
        ensures
            final(out)@ == old(out)@ + fm_suffix(self@),
    {
        let n = self.pairs.len();
        let mut i: usize = 0;
        while i < n
            invariant
                i <= n,
                n == self.pairs.len(),
                out@ == old(out)@ + fm_suffix(self@.subrange(0, i as int)),
            decreases n - i,
        {
            out.append(self.pairs[i].0.as_str());
            out.append(self.pairs[i].1.as_str());
            proof {
                assert(self@.subrange(0, i + 1).drop_last() =~= self@.subrange(0, i as int));
                assert(self@.subrange(0, i + 1).last() == self@[i as int]);
            }
            i += 1;
        }
        proof {
            assert(self@.subrange(0, n as int) =~= self@);
        }
    }
}

} // verus!
