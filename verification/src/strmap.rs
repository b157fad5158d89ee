//! A small string-to-string map kept as an association list with distinct keys.

use vstd::prelude::*;

verus! {

/// The character sequences of an entry list.
pub open spec fn pairs_of(e: Seq<(String, String)>) -> Seq<(Seq<char>, Seq<char>)> {
    e.map_values(|p: (String, String)| (p.0@, p.1@))
}

/// No key occurs twice in `p`.
pub open spec fn keys_distinct(p: Seq<(Seq<char>, Seq<char>)>) -> bool {
    forall|a: int, b: int| 0 <= a < b < p.len() ==> #[trigger] p[a].0 != #[trigger] p[b].0
}

/// The map that a list of pairs denotes.
pub open spec fn map_of_pairs(p: Seq<(Seq<char>, Seq<char>)>) -> Map<Seq<char>, Seq<char>> {
    Map::new(
        |k: Seq<char>| exists|j: int| 0 <= j < p.len() && #[trigger] p[j].0 == k,
        |k: Seq<char>| p[choose|j: int| 0 <= j < p.len() && #[trigger] p[j].0 == k].1,
    )
}

/// In a list with distinct keys, the value of the key at `j` is the one at `j`.
pub proof fn lemma_map_of_pairs_at(p: Seq<(Seq<char>, Seq<char>)>, j: int)
    requires
        keys_distinct(p),
        0 <= j < p.len(),
    ensures
        map_of_pairs(p).contains_key(p[j].0),
        map_of_pairs(p)[p[j].0] == p[j].1,
{
    let k = p[j].0;
    let c = choose|c: int| 0 <= c < p.len() && #[trigger] p[c].0 == k;
    if c != j {
        if c < j {
            assert(p[c].0 != p[j].0);
        } else {
            assert(p[j].0 != p[c].0);
        }
    }
}

/// Replacing the pair at `i` by one with the same key sets that key's value.
pub proof fn lemma_map_of_pairs_update(p: Seq<(Seq<char>, Seq<char>)>, i: int, v: Seq<char>)
    requires
        keys_distinct(p),
        0 <= i < p.len(),
    ensures
        keys_distinct(p.update(i, (p[i].0, v))),
        map_of_pairs(p.update(i, (p[i].0, v))) == map_of_pairs(p).insert(p[i].0, v),
{
    let q = p.update(i, (p[i].0, v));
    assert forall|a: int, b: int| 0 <= a < b < q.len() implies #[trigger] q[a].0 != #[trigger] q[b].0 by {
        assert(p[a].0 != p[b].0);
    }
    let k = p[i].0;
    assert forall|kk: Seq<char>| #[trigger] map_of_pairs(q).contains_key(kk)
        <==> map_of_pairs(p).insert(k, v).contains_key(kk) by {
        if map_of_pairs(p).contains_key(kk) {
            let j = choose|j: int| 0 <= j < p.len() && #[trigger] p[j].0 == kk;
            assert(q[j].0 == kk);
        }
        if map_of_pairs(q).contains_key(kk) {
            let j = choose|j: int| 0 <= j < q.len() && #[trigger] q[j].0 == kk;
            assert(p[j].0 == kk);
        }
        if kk == k {
            assert(q[i].0 == kk);
        }
    }
    assert forall|kk: Seq<char>| #[trigger] map_of_pairs(q).contains_key(kk)
        implies map_of_pairs(q)[kk] == map_of_pairs(p).insert(k, v)[kk] by {
        let j = choose|j: int| 0 <= j < q.len() && #[trigger] q[j].0 == kk;
        lemma_map_of_pairs_at(q, j);
        if j != i {
            lemma_map_of_pairs_at(p, j);
        }
    }
    assert(map_of_pairs(q) =~= map_of_pairs(p).insert(k, v));
}

/// Appending a pair with a new key adds that key.
pub proof fn lemma_map_of_pairs_push(p: Seq<(Seq<char>, Seq<char>)>, k: Seq<char>, v: Seq<char>)
    requires
        keys_distinct(p),
        forall|j: int| 0 <= j < p.len() ==> #[trigger] p[j].0 != k,
    ensures
        keys_distinct(p.push((k, v))),
        map_of_pairs(p.push((k, v))) == map_of_pairs(p).insert(k, v),
{
    let q = p.push((k, v));
    let n = p.len() as int;
    assert forall|a: int, b: int| 0 <= a < b < q.len() implies #[trigger] q[a].0 != #[trigger] q[b].0 by {
        if b < n {
            assert(p[a].0 != p[b].0);
        } else {
            assert(p[a].0 != k);
        }
    }
    assert forall|kk: Seq<char>| #[trigger] map_of_pairs(q).contains_key(kk)
        <==> map_of_pairs(p).insert(k, v).contains_key(kk) by {
        if map_of_pairs(p).contains_key(kk) {
            let j = choose|j: int| 0 <= j < p.len() && #[trigger] p[j].0 == kk;
            assert(q[j].0 == kk);
        }
        if map_of_pairs(q).contains_key(kk) {
            let j = choose|j: int| 0 <= j < q.len() && #[trigger] q[j].0 == kk;
            if j < n {
                assert(p[j].0 == kk);
            }
        }
        if kk == k {
            assert(q[n].0 == kk);
        }
    }
    assert forall|kk: Seq<char>| #[trigger] map_of_pairs(q).contains_key(kk)
        implies map_of_pairs(q)[kk] == map_of_pairs(p).insert(k, v)[kk] by {
        let j = choose|j: int| 0 <= j < q.len() && #[trigger] q[j].0 == kk;
        lemma_map_of_pairs_at(q, j);
        if j < n {
            lemma_map_of_pairs_at(p, j);
        }
    }
    assert(map_of_pairs(q) =~= map_of_pairs(p).insert(k, v));
}

/// A map from strings to strings; entries keep the order of their first insertion.
pub struct StringMap {
    entries: Vec<(String, String)>,
}

impl StringMap {
    #[verifier::type_invariant]
    spec fn inv(self) -> bool {
        keys_distinct(pairs_of(self.entries@))
    }

    /// The entries as pairs of character sequences, in insertion order.
    pub closed spec fn pairs(&self) -> Seq<(Seq<char>, Seq<char>)> {
        pairs_of(self.entries@)
    }

    /// The map the entries denote.
    pub open spec fn view(&self) -> Map<Seq<char>, Seq<char>> {
        map_of_pairs(self.pairs())
    }

    /// An empty map.
    pub fn new() -> (m: StringMap)
        ensures
            m.view() == Map::<Seq<char>, Seq<char>>::empty(),
            m.pairs() == Seq::<(Seq<char>, Seq<char>)>::empty(),
    {
        let m = StringMap { entries: Vec::new() };
        assert(m.pairs() =~= Seq::<(Seq<char>, Seq<char>)>::empty());
        assert(m.view() =~= Map::<Seq<char>, Seq<char>>::empty());
        m
    }

    /// The position of `key` among the entries.
    fn find(&self, key: &str) -> (r: Option<usize>)
        ensures
            r matches Some(i) ==> i < self.pairs().len() && self.pairs()[i as int].0 == key@,
            r is None ==> forall|i: int| 0 <= i < self.pairs().len() ==> #[trigger] self.pairs()[i].0 != key@,
    {
        let n = self.entries.len();
        let mut i: usize = 0;
        while i < n
            invariant
                n == self.entries@.len(),
                i <= n,
                forall|j: int| 0 <= j < i ==> #[trigger] self.entries@[j].0@ != key@,
            decreases n - i,
        {
            if str_eq(self.entries[i].0.as_str(), key) {
                return Some(i);
            }
            i = i + 1;
        }
        proof {
            assert forall|j: int| 0 <= j < self.pairs().len() implies #[trigger] self.pairs()[j].0 != key@ by {
                assert(self.entries@[j].0@ != key@);
            }
        }
        None
    }

    /// The value stored for `key`.
    pub fn get(&self, key: &str) -> (r: Option<&String>)
        ensures
            r is Some <==> self.view().contains_key(key@),
            r matches Some(v) ==> v@ == self.view()[key@],
    {
        proof {
            use_type_invariant(self);
        }
        match self.find(key) {
            Some(i) => {
                proof {
                    lemma_map_of_pairs_at(self.pairs(), i as int);
                }
                Some(&self.entries[i].1)
            },
            None => None,
        }
    }

    /// Stores `value` for `key`, replacing an earlier value; a new key comes last.
    pub fn insert(&mut self, key: String, value: String)
        ensures
            final(self).view() == old(self).view().insert(key@, value@),
            old(self).view().contains_key(key@) ==> final(self).pairs().len() == old(self).pairs().len(),
            !old(self).view().contains_key(key@) ==> final(self).pairs() == old(self).pairs().push((key@, value@)),
    {
        proof {
            use_type_invariant(&*self);
        }
        let ghost p = self.pairs();
        let found = self.find(key.as_str());
        let mut entries: Vec<(String, String)> = Vec::new();
        std::mem::swap(&mut entries, &mut self.entries);
        assert(pairs_of(entries@) == p);
        match found {
            Some(i) => {
                let ghost k = p[i as int].0;
                entries.set(i, (key, value));
                proof {
                    lemma_map_of_pairs_update(p, i as int, value@);
                    assert(pairs_of(entries@) =~= p.update(i as int, (k, value@)));
                    lemma_map_of_pairs_at(p, i as int);
                }
            },
            None => {
                let ghost kv = key@;
                let ghost vv = value@;
                entries.push((key, value));
                proof {
                    lemma_map_of_pairs_push(p, kv, vv);
                    assert(pairs_of(entries@) =~= p.push((kv, vv)));
                    assert(!map_of_pairs(p).contains_key(kv));
                }
            },
        }
        self.entries = entries;
    }

    /// Removes every entry.
    pub fn clear(&mut self)
        ensures
            final(self).view() == Map::<Seq<char>, Seq<char>>::empty(),
            final(self).pairs() == Seq::<(Seq<char>, Seq<char>)>::empty(),
    {
        self.entries = Vec::new();
        assert(self.pairs() =~= Seq::<(Seq<char>, Seq<char>)>::empty());
        assert(self.view() =~= Map::<Seq<char>, Seq<char>>::empty());
    }

    /// The number of entries.
    pub fn len(&self) -> (n: usize)
        ensures
            n == self.pairs().len(),
    {
        self.entries.len()
    }

    /// The entries in insertion order.
    pub fn entries(&self) -> (r: &Vec<(String, String)>)
        ensures
            pairs_of(r@) == self.pairs(),
    {
        &self.entries
    }
}

/// Whether two strings hold the same characters.
pub(crate) fn str_eq(a: &str, b: &str) -> (r: bool)
    ensures
        r == (a@ == b@),
{
    let x = a.to_owned();
    let y = b.to_owned();
    x == y
}

} // verus!
