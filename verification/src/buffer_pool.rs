//! Buffers of items grouped by a tile key, flushed in batches.
//!
//! Elevation lookups are cheap once a tile is loaded, so nodes are collected
//! per tile and looked up together. A buffer is flushed when it reaches the
//! batch size, and all buffers are flushed at the end. Where the buffers
//! together may hold only so many items, a largest buffer is flushed when
//! they reach that limit.

use vstd::prelude::*;
use vstd::multiset::Multiset;

verus! {

/// The number of items held by all buffers of `entries`.
pub open spec fn total_len<T>(entries: Seq<(u128, Seq<T>)>) -> nat
    decreases entries.len(),
{
    if entries.len() == 0 {
        0
    } else {
        total_len(entries.drop_last()) + entries.last().1.len()
    }
}

/// Every buffer of `entries` holds at most as many items as the one at `i`.
pub open spec fn is_largest<T>(entries: Seq<(u128, Seq<T>)>, i: int) -> bool {
    &&& 0 <= i < entries.len()
    &&& forall|j: int| 0 <= j < entries.len() ==> #[trigger] entries[j].1.len() <= entries[i].1.len()
}

/// A pool without buffers holds no items.
pub proof fn lemma_total_len_empty<T>(entries: Seq<(u128, Seq<T>)>)
    requires
        entries.len() == 0,
    ensures
        total_len(entries) == 0,
{
}

/// The position of the buffer for `key`, if there is one.
pub open spec fn key_index<T>(entries: Seq<(u128, Seq<T>)>, key: u128) -> Option<int> {
    if exists|i: int| 0 <= i < entries.len() && #[trigger] entries[i].0 == key {
        Some(choose|i: int| 0 <= i < entries.len() && #[trigger] entries[i].0 == key)
    } else {
        None
    }
}

/// `entries` after `item` was appended to the buffer for `key`; a new buffer
/// for `key` comes last.
pub open spec fn pushed<T>(entries: Seq<(u128, Seq<T>)>, key: u128, item: T) -> Seq<(u128, Seq<T>)> {
    match key_index(entries, key) {
        Some(i) => entries.update(i, (key, entries[i].1.push(item))),
        None => entries.push((key, seq![item])),
    }
}

/// The keys of `entries` are distinct and no buffer is empty.
pub open spec fn entries_wf<T>(entries: Seq<(u128, Seq<T>)>) -> bool {
    &&& forall|i: int, j: int|
        0 <= i < j < entries.len() ==> #[trigger] entries[i].0 != #[trigger] entries[j].0
    &&& forall|i: int| 0 <= i < entries.len() ==> #[trigger] entries[i].1.len() > 0
}

/// All items held by the buffers of `entries`, counted with multiplicity.
pub open spec fn items_of<T>(entries: Seq<(u128, Seq<T>)>) -> Multiset<T>
    decreases entries.len(),
{
    if entries.len() == 0 {
        Multiset::empty()
    } else {
        items_of(entries.drop_last()).add(entries.last().1.to_multiset())
    }
}

/// The items of an optional batch.
pub open spec fn batch_items<T>(b: Option<(u128, Seq<T>)>) -> Multiset<T> {
    match b {
        Some(x) => x.1.to_multiset(),
        None => Multiset::empty(),
    }
}

/// Removing the buffer at `i` removes exactly its items.
pub proof fn lemma_items_remove<T>(entries: Seq<(u128, Seq<T>)>, i: int)
    requires
        0 <= i < entries.len(),
    ensures
        items_of(entries.remove(i)).add(entries[i].1.to_multiset()) == items_of(entries),
    decreases entries.len(),
{
    broadcast use vstd::multiset::group_multiset_axioms;
    if i == entries.len() - 1 {
        assert(entries.remove(i) =~= entries.drop_last());
    } else {
        lemma_items_remove(entries.drop_last(), i);
        assert(entries.remove(i).drop_last() =~= entries.drop_last().remove(i));
        assert(entries.remove(i).last() == entries.last());
        assert(items_of(entries.remove(i)).add(entries[i].1.to_multiset()) =~= items_of(entries));
    }
}

/// Replacing the buffer at `i` swaps its items for those of the new buffer.
pub proof fn lemma_items_update<T>(entries: Seq<(u128, Seq<T>)>, i: int, e: (u128, Seq<T>))
    requires
        0 <= i < entries.len(),
    ensures
        items_of(entries.update(i, e)).add(entries[i].1.to_multiset()) == items_of(entries).add(e.1.to_multiset()),
    decreases entries.len(),
{
    broadcast use vstd::multiset::group_multiset_axioms;
    let u = entries.update(i, e);
    if i == entries.len() - 1 {
        assert(u.drop_last() =~= entries.drop_last());
        assert(items_of(u) == items_of(entries.drop_last()).add(e.1.to_multiset()));
        assert(items_of(entries) == items_of(entries.drop_last()).add(entries[i].1.to_multiset()));
        assert(items_of(u).add(entries[i].1.to_multiset()) =~= items_of(entries).add(e.1.to_multiset()));
    } else {
        lemma_items_update(entries.drop_last(), i, e);
        assert(u.drop_last() =~= entries.drop_last().update(i, e));
        assert(u.last() == entries.last());
        assert(entries.drop_last()[i] == entries[i]);
        assert(items_of(u) == items_of(u.drop_last()).add(entries.last().1.to_multiset()));
        assert(items_of(entries) == items_of(entries.drop_last()).add(entries.last().1.to_multiset()));
        let dl = entries.drop_last();
        assert forall|x: T| #[trigger] items_of(u).add(entries[i].1.to_multiset()).count(x)
            == items_of(entries).add(e.1.to_multiset()).count(x) by {
            assert(items_of(dl.update(i, e)).add(dl[i].1.to_multiset()).count(x) == items_of(dl).add(e.1.to_multiset()).count(x));
        }
        assert(items_of(u).add(entries[i].1.to_multiset()) =~= items_of(entries).add(e.1.to_multiset()));
    }
}

/// Adding an item to a buffer adds it to the items held.
pub proof fn lemma_items_pushed<T>(entries: Seq<(u128, Seq<T>)>, key: u128, item: T)
    ensures
        items_of(pushed(entries, key, item)) == items_of(entries).insert(item),
{
    broadcast use vstd::multiset::group_multiset_axioms;
    broadcast use vstd::seq_lib::to_multiset_build;
    match key_index(entries, key) {
        Some(i) => {
            let b = entries[i].1;
            lemma_items_update(entries, i, (key, b.push(item)));
            vstd::seq_lib::to_multiset_build(b, item);
            let u = entries.update(i, (key, b.push(item)));
            assert(pushed(entries, key, item) == u);
            assert forall|x: T| #[trigger] items_of(u).count(x) == items_of(entries).insert(item).count(x) by {
                assert(items_of(u).add(b.to_multiset()).count(x) == items_of(entries).add(b.push(item).to_multiset()).count(x));
            }
            assert(items_of(u) =~= items_of(entries).insert(item));
        },
        None => {
            assert(entries.push((key, seq![item])).drop_last() =~= entries);
            assert(seq![item] =~= Seq::<T>::empty().push(item));
            assert(Seq::<T>::empty().to_multiset() =~= Multiset::<T>::empty()) by {
                Seq::<T>::empty().to_multiset_ensures();
            }
            assert(items_of(pushed(entries, key, item)) =~= items_of(entries).insert(item));
        },
    }
}

/// Adding an item loses nothing and duplicates nothing: the items held
/// before, together with the new one, are the items held afterwards together
/// with those of the flushed batch.
pub proof fn lemma_add_conserves_items<T>(
    entries: Seq<(u128, Seq<T>)>,
    key: u128,
    item: T,
    batch_size: usize,
    after: Seq<(u128, Seq<T>)>,
    out: Option<(u128, Seq<T>)>,
)
    requires
        add_result(entries, key, item, batch_size, after, out),
    ensures
        items_of(entries).insert(item) == items_of(after).add(batch_items(out)),
{
    broadcast use vstd::multiset::group_multiset_axioms;
    let p = pushed(entries, key, item);
    let i = key_index(p, key).unwrap();
    lemma_items_pushed(entries, key, item);
    if p[i].1.len() >= batch_size {
        lemma_items_remove(p, i);
    } else {
        assert(items_of(after).add(batch_items(out)) =~= items_of(p));
    }
    assert(items_of(entries).insert(item) =~= items_of(after).add(batch_items(out)));
}

/// When every buffer is below the batch size before an item is added, every
/// buffer is below it afterwards: a buffer never holds a full batch.
pub proof fn lemma_add_keeps_buffers_below_batch_size<T>(
    entries: Seq<(u128, Seq<T>)>,
    key: u128,
    item: T,
    batch_size: usize,
    after: Seq<(u128, Seq<T>)>,
    out: Option<(u128, Seq<T>)>,
)
    requires
        entries_wf(entries),
        add_result(entries, key, item, batch_size, after, out),
        forall|i: int| 0 <= i < entries.len() ==> #[trigger] entries[i].1.len() < batch_size,
    ensures
        forall|i: int| 0 <= i < after.len() ==> #[trigger] after[i].1.len() < batch_size,
{
    let p = pushed(entries, key, item);
    let i = key_index(p, key).unwrap();
    match key_index(entries, key) {
        Some(k) => {
            assert(p[k].0 == key);
            assert(i == k) by {
                if i != k {
                    if i < k {
                        assert(entries[i].0 != entries[k].0);
                    } else {
                        assert(entries[k].0 != entries[i].0);
                    }
                }
            }
        },
        None => {
            assert forall|a: int| 0 <= a < entries.len() implies #[trigger] entries[a].0 != key by {}
            assert(i == entries.len()) by {
                if i < entries.len() {
                    assert(p[i] == entries[i]);
                }
            }
        },
    }
    assert forall|a: int| 0 <= a < p.len() && a != i implies #[trigger] p[a].1.len() < batch_size by {
        assert(p[a] == entries[a]);
    }
    assert forall|a: int| 0 <= a < after.len() implies #[trigger] after[a].1.len() < batch_size by {
        if p[i].1.len() >= batch_size {
            if a < i {
                assert(after[a] == p[a]);
            } else {
                assert(after[a] == p[a + 1]);
            }
        }
    }
}

/// Adding an item under a total limit loses nothing and duplicates nothing:
/// the items held before, together with the new one, are the items held
/// afterwards together with those of the flushed batches.
pub proof fn lemma_add_limited_conserves_items<T>(
    entries: Seq<(u128, Seq<T>)>,
    key: u128,
    item: T,
    batch_size: usize,
    total_limit: usize,
    after: Seq<(u128, Seq<T>)>,
    full: Option<(u128, Seq<T>)>,
    largest: Option<(u128, Seq<T>)>,
)
    requires
        add_limited_result(entries, key, item, batch_size, total_limit, after, full, largest),
    ensures
        items_of(entries).insert(item) == items_of(after).add(batch_items(full)).add(batch_items(largest)),
{
    broadcast use vstd::multiset::group_multiset_axioms;
    let p = pushed(entries, key, item);
    let i = key_index(p, key).unwrap();
    let mid = if p[i].1.len() >= batch_size { p.remove(i) } else { p };
    assert(add_result(entries, key, item, batch_size, mid, full));
    lemma_add_conserves_items(entries, key, item, batch_size, mid, full);
    if total_len(mid) >= total_limit {
        let j = choose|j: int| is_largest(mid, j) && largest == Some(#[trigger] mid[j]) && after == mid.remove(j);
        lemma_items_remove(mid, j);
    } else {
        assert(items_of(after).add(batch_items(largest)) =~= items_of(mid));
    }
    assert(items_of(after).add(batch_items(largest)) =~= items_of(mid));
    assert(items_of(entries).insert(item) =~= items_of(after).add(batch_items(full)).add(batch_items(largest)));
}

/// A batch of items flushed from one buffer, with the buffer's key.
pub struct Batch<T> {
    pub key: u128,
    pub items: Vec<T>,
}

/// Item buffers keyed by tile.
pub struct BufferPool<T> {
    entries: Vec<(u128, Vec<T>)>,
    batch_size: usize,
}

impl<T> BufferPool<T> {
    /// The buffers with their keys, in the order in which they were opened.
    pub closed spec fn view(&self) -> Seq<(u128, Seq<T>)> {
        self.entries@.map_values(|e: (u128, Vec<T>)| (e.0, e.1@))
    }

    /// The number of items a buffer may reach before it is flushed.
    pub closed spec fn spec_batch_size(&self) -> usize {
        self.batch_size
    }

    /// The keys of the buffers are distinct and no buffer is empty.
    pub open spec fn wf(&self) -> bool {
        entries_wf(self.view())
    }

    /// An empty pool.
    pub fn new(batch_size: usize) -> (p: Self)
        ensures
            p.wf(),
            p.view() == Seq::<(u128, Seq<T>)>::empty(),
            p.spec_batch_size() == batch_size,
    {
        let p = BufferPool { entries: Vec::new(), batch_size };
        assert(p.view() =~= Seq::<(u128, Seq<T>)>::empty());
        p
    }

    /// The number of buffers.
    pub fn buffer_count(&self) -> (n: usize)
        ensures
            n == self.view().len(),
    {
        self.entries.len()
    }

    /// The position of the buffer for `key`.
    fn find(&self, key: u128) -> (r: Option<usize>)
        requires
            self.wf(),
        ensures
            r matches Some(i) ==> key_index(self.view(), key) == Some(i as int),
            r is None ==> key_index(self.view(), key) is None,
    {
        let n = self.entries.len();
        let mut i: usize = 0;
        while i < n
            invariant
                n == self.entries@.len(),
                i <= n,
                self.wf(),
                forall|j: int| 0 <= j < i ==> #[trigger] self.entries@[j].0 != key,
            decreases n - i,
        {
            if self.entries[i].0 == key {
                proof {
                    let v = self.view();
                    assert(v[i as int].0 == key);
                    let c = choose|c: int| 0 <= c < v.len() && #[trigger] v[c].0 == key;
                    assert(c == i) by {
                        if c != i {
                            if c < i {
                                assert(self.entries@[c].0 != key);
                            } else {
                                assert(v[i as int].0 != v[c].0);
                            }
                        }
                    }
                }
                return Some(i);
            }
            i = i + 1;
        }
        proof {
            let v = self.view();
            assert forall|j: int| 0 <= j < v.len() implies #[trigger] v[j].0 != key by {
                assert(self.entries@[j].0 != key);
            }
        }
        None
    }

    /// Takes out the buffer at `i`.
    fn take_at(&mut self, i: usize) -> (b: Batch<T>)
        requires
            old(self).wf(),
            i < old(self).view().len(),
        ensures
            final(self).wf(),
            final(self).view() == old(self).view().remove(i as int),
            b.key == old(self).view()[i as int].0,
            b.items@ == old(self).view()[i as int].1,
            final(self).spec_batch_size() == old(self).spec_batch_size(),
    {
        let ghost v0 = self.view();
        let (key, items) = self.entries.remove(i);
        assert(self.view() =~= v0.remove(i as int));
        Batch { key, items }
    }

    /// Appends `item` to the buffer for `key`, opening one if needed.
    fn push_item(&mut self, key: u128, item: T) -> (i: usize)
        requires
            old(self).wf(),
        ensures
            final(self).wf(),
            final(self).view() == pushed(old(self).view(), key, item),
            i < final(self).view().len(),
            final(self).view()[i as int].0 == key,
            final(self).spec_batch_size() == old(self).spec_batch_size(),
    {
        let ghost v0 = self.view();
        match self.find(key) {
            Some(i) => {
                let (k, mut items) = self.entries.remove(i);
                items.push(item);
                self.entries.insert(i, (k, items));
                proof {
                    assert(self.view() =~= v0.update(i as int, (key, v0[i as int].1.push(item))));
                    let v = self.view();
                    assert forall|a: int, b: int| 0 <= a < b < v.len() implies #[trigger] v[a].0 != #[trigger] v[b].0 by {
                        assert(v[a].0 == v0[a].0);
                        assert(v[b].0 == v0[b].0);
                    }
                }
                i
            },
            None => {
                let mut items = Vec::new();
                items.push(item);
                self.entries.push((key, items));
                proof {
                    assert(self.view() =~= v0.push((key, seq![item])));
                    let v = self.view();
                    assert forall|a: int, b: int| 0 <= a < b < v.len() implies #[trigger] v[a].0 != #[trigger] v[b].0 by {
                        if b == v.len() - 1 {
                            assert(v0[a].0 != key);
                        }
                    }
                }
                self.entries.len() - 1
            },
        }
    }

    /// The position of a largest buffer; the pool holds at least one.
    fn largest_index(&self) -> (r: usize)
        requires
            self.wf(),
            self.view().len() > 0,
        ensures
            is_largest(self.view(), r as int),
    {
        let n = self.entries.len();
        let mut best: usize = 0;
        let mut i: usize = 1;
        while i < n
            invariant
                n == self.entries@.len(),
                n > 0,
                1 <= i <= n,
                best < i,
                forall|j: int| 0 <= j < i ==> #[trigger] self.entries@[j].1@.len() <= self.entries@[best as int].1@.len(),
            decreases n - i,
        {
            if self.entries[i].1.len() > self.entries[best].1.len() {
                best = i;
            }
            i = i + 1;
        }
        proof {
            let v = self.view();
            assert forall|j: int| 0 <= j < v.len() implies #[trigger] v[j].1.len() <= v[best as int].1.len() by {
                assert(self.entries@[j].1@.len() <= self.entries@[best as int].1@.len());
            }
        }
        best
    }

    /// The number of buffered items.
    pub fn total_items(&self) -> (n: u128)
        ensures
            n == total_len(self.view()),
    {
        let ghost v = self.view();
        let n = self.entries.len();
        let mut acc: u128 = 0;
        let mut i: usize = 0;
        while i < n
            invariant
                n == self.entries@.len(),
                v == self.view(),
                i <= n,
                acc == total_len(v.take(i as int)),
                acc <= i as int * 0xffff_ffff_ffff_ffff,
            decreases n - i,
        {
            assert(v.take(i + 1).drop_last() =~= v.take(i as int));
            assert(v[i as int].1.len() == self.entries@[i as int].1@.len());
            acc = acc + self.entries[i].1.len() as u128;
            i = i + 1;
        }
        assert(v.take(n as int) =~= v);
        acc
    }

    /// Adds `item` to the buffer for `key`, flushing that buffer when it
    /// reaches the batch size; then, when the buffers hold at least
    /// `total_limit` items, a largest buffer is flushed too.
    pub fn add_limited(&mut self, key: u128, item: T, total_limit: usize) -> (out: (Option<Batch<T>>, Option<Batch<T>>))
        requires
            old(self).wf(),
            total_limit > 0 || add_keeps_some(old(self).view(), key, item, old(self).spec_batch_size()),
        ensures
            final(self).wf(),
            final(self).spec_batch_size() == old(self).spec_batch_size(),
            add_limited_result(old(self).view(), key, item, old(self).spec_batch_size(), total_limit,
                final(self).view(), batch_view(out.0), batch_view(out.1)),
    {
        let full = self.add(key, item);
        let ghost v1 = self.view();
        let total = self.total_items();
        let largest = if total >= total_limit as u128 {
            proof {
                if v1.len() == 0 {
                    lemma_total_len_empty(v1);
                }
            }
            let j = self.largest_index();
            Some(self.take_at(j))
        } else {
            None
        };
        (full, largest)
    }

    /// Adds `item` to the buffer for `key`; the buffer is flushed and handed
    /// out when it reaches the batch size.
    pub fn add(&mut self, key: u128, item: T) -> (out: Option<Batch<T>>)
        requires
            old(self).wf(),
        ensures
            final(self).wf(),
            final(self).spec_batch_size() == old(self).spec_batch_size(),
            add_result(old(self).view(), key, item, old(self).spec_batch_size(), final(self).view(), batch_view(out)),
    {
        let i = self.push_item(key, item);
        let ghost v1 = self.view();
        proof {
            assert(key_index(v1, key) == Some(i as int)) by {
                assert(v1[i as int].0 == key);
            }
        }
        if self.entries[i].1.len() >= self.batch_size {
            Some(self.take_at(i))
        } else {
            None
        }
    }

    /// Flushes every buffer, in the order in which they were opened.
    pub fn drain_all(&mut self) -> (out: Vec<Batch<T>>)
        requires
            old(self).wf(),
        ensures
            final(self).wf(),
            final(self).view() == Seq::<(u128, Seq<T>)>::empty(),
            batches_view(out@) == old(self).view(),
            final(self).spec_batch_size() == old(self).spec_batch_size(),
    {
        let ghost v0 = self.view();
        let mut entries: Vec<(u128, Vec<T>)> = Vec::new();
        std::mem::swap(&mut entries, &mut self.entries);
        let mut out: Vec<Batch<T>> = Vec::new();
        let mut rest = entries;
        let mut rev: Vec<(u128, Vec<T>)> = Vec::new();
        while rest.len() > 0
            invariant
                rest@.map_values(|e: (u128, Vec<T>)| (e.0, e.1@)) + rev@.reverse().map_values(|e: (u128, Vec<T>)| (e.0, e.1@)) == v0,
            decreases rest.len(),
        {
            let ghost r0 = rest@;
            let ghost w0 = rev@;
            let e = rest.pop().unwrap();
            rev.push(e);
            proof {
                assert(rev@.reverse() =~= seq![e] + w0.reverse());
                assert(r0 =~= rest@.push(e));
                assert(rest@.map_values(|e: (u128, Vec<T>)| (e.0, e.1@)) + rev@.reverse().map_values(|e: (u128, Vec<T>)| (e.0, e.1@))
                    =~= r0.map_values(|e: (u128, Vec<T>)| (e.0, e.1@)) + w0.reverse().map_values(|e: (u128, Vec<T>)| (e.0, e.1@)));
            }
        }
        assert(rev@.reverse().map_values(|e: (u128, Vec<T>)| (e.0, e.1@)) =~= v0);
        while rev.len() > 0
            invariant
                batches_view(out@) + rev@.reverse().map_values(|e: (u128, Vec<T>)| (e.0, e.1@)) == v0,
            decreases rev.len(),
        {
            let ghost w0 = rev@;
            let ghost o0 = out@;
            let (key, items) = rev.pop().unwrap();
            out.push(Batch { key, items });
            proof {
                assert(w0.reverse() =~= seq![(key, items)] + rev@.reverse());
                assert(batches_view(out@) =~= batches_view(o0).push((key, items@)));
                assert(batches_view(out@) + rev@.reverse().map_values(|e: (u128, Vec<T>)| (e.0, e.1@))
                    =~= batches_view(o0) + w0.reverse().map_values(|e: (u128, Vec<T>)| (e.0, e.1@)));
            }
        }
        assert(batches_view(out@) =~= v0);
        assert(self.view() =~= Seq::<(u128, Seq<T>)>::empty());
        out
    }
}

/// The keys and items of a sequence of batches.
pub open spec fn batches_view<T>(b: Seq<Batch<T>>) -> Seq<(u128, Seq<T>)> {
    b.map_values(|x: Batch<T>| (x.key, x.items@))
}

/// The keys and items of an optional batch.
pub open spec fn batch_view<T>(b: Option<Batch<T>>) -> Option<(u128, Seq<T>)> {
    match b {
        Some(x) => Some((x.key, x.items@)),
        None => None,
    }
}

/// What `add` does: `item` joins the buffer for `key` (a new buffer comes
/// last), and that buffer is taken out and handed out if it reached
/// `batch_size`.
pub open spec fn add_result<T>(
    entries: Seq<(u128, Seq<T>)>,
    key: u128,
    item: T,
    batch_size: usize,
    after: Seq<(u128, Seq<T>)>,
    out: Option<(u128, Seq<T>)>,
) -> bool {
    let p = pushed(entries, key, item);
    let i = key_index(p, key).unwrap();
    &&& key_index(p, key) is Some
    &&& (p[i].1.len() >= batch_size ==> out == Some(p[i]) && after == p.remove(i))
    &&& (p[i].1.len() < batch_size ==> out is None && after == p)
}

/// Adding `item` for `key` leaves some buffer once a full buffer was taken out.
pub open spec fn add_keeps_some<T>(entries: Seq<(u128, Seq<T>)>, key: u128, item: T, batch_size: usize) -> bool {
    let p = pushed(entries, key, item);
    let i = key_index(p, key).unwrap();
    p[i].1.len() < batch_size || p.len() > 1
}

/// What `add_limited` does: `add` first; then, if the remaining buffers hold
/// at least `total_limit` items, a largest of them is taken out and handed
/// out as well.
pub open spec fn add_limited_result<T>(
    entries: Seq<(u128, Seq<T>)>,
    key: u128,
    item: T,
    batch_size: usize,
    total_limit: usize,
    after: Seq<(u128, Seq<T>)>,
    full: Option<(u128, Seq<T>)>,
    largest: Option<(u128, Seq<T>)>,
) -> bool {
    exists|mid: Seq<(u128, Seq<T>)>| {
        &&& #[trigger] add_result(entries, key, item, batch_size, mid, full)
        &&& (total_len(mid) >= total_limit ==> exists|j: int|
            is_largest(mid, j) && largest == Some(#[trigger] mid[j]) && after == mid.remove(j))
        &&& (total_len(mid) < total_limit ==> largest is None && after == mid)
    }
}

} // verus!
