//! Operations shared by nodes, ways and relations.

use vstd::prelude::*;
use vstd::multiset::Multiset;
use crate::model::{Node, Way, Relation, Tag};

verus! {

/// What the handlers read of every kind of element.
pub trait OsmElement: Sized {
    spec fn spec_id(&self) -> i64;

    spec fn spec_tags(&self) -> Seq<Tag>;

    fn element_id(&self) -> (r: i64)
        ensures
            r == self.spec_id(),
    ;

    fn element_tags(&self) -> (r: &Vec<Tag>)
        ensures
            r@ == self.spec_tags(),
    ;

    /// `self` and `other` agree on everything but their tags.
    spec fn same_but_tags(&self, other: &Self) -> bool;

    /// The tag list, for changing it in place.
    fn element_tags_mut(&mut self) -> (r: &mut Vec<Tag>)
        ensures
            (*r)@ == old(self).spec_tags(),
            final(self).spec_tags() == (*final(r))@,
            final(self).same_but_tags(old(self)),
    ;
}

impl OsmElement for Node {
    open spec fn spec_id(&self) -> i64 {
        self.id
    }

    open spec fn same_but_tags(&self, other: &Self) -> bool {
        *self == (Node { tags: self.tags, ..*other })
    }

    fn element_tags_mut(&mut self) -> (r: &mut Vec<Tag>)
        ensures
            *r == old(self).tags,
            *final(self) == (Node { tags: *final(r), ..*old(self) }),
    {
        assert(old(self).spec_tags() == old(self).tags@);
        &mut self.tags
    }

    open spec fn spec_tags(&self) -> Seq<Tag> {
        self.tags@
    }

    fn element_id(&self) -> (r: i64) {
        self.id
    }

    fn element_tags(&self) -> (r: &Vec<Tag>) {
        &self.tags
    }
}

impl OsmElement for Way {
    open spec fn spec_id(&self) -> i64 {
        self.id
    }

    open spec fn same_but_tags(&self, other: &Self) -> bool {
        *self == (Way { tags: self.tags, ..*other })
    }

    fn element_tags_mut(&mut self) -> (r: &mut Vec<Tag>)
        ensures
            *r == old(self).tags,
            *final(self) == (Way { tags: *final(r), ..*old(self) }),
    {
        assert(old(self).spec_tags() == old(self).tags@);
        &mut self.tags
    }

    open spec fn spec_tags(&self) -> Seq<Tag> {
        self.tags@
    }

    fn element_id(&self) -> (r: i64) {
        self.id
    }

    fn element_tags(&self) -> (r: &Vec<Tag>) {
        &self.tags
    }
}

impl OsmElement for Relation {
    open spec fn spec_id(&self) -> i64 {
        self.id
    }

    open spec fn same_but_tags(&self, other: &Self) -> bool {
        *self == (Relation { tags: self.tags, ..*other })
    }

    fn element_tags_mut(&mut self) -> (r: &mut Vec<Tag>)
        ensures
            *r == old(self).tags,
            *final(self) == (Relation { tags: *final(r), ..*old(self) }),
    {
        assert(old(self).spec_tags() == old(self).tags@);
        &mut self.tags
    }

    open spec fn spec_tags(&self) -> Seq<Tag> {
        self.tags@
    }

    fn element_id(&self) -> (r: i64) {
        self.id
    }

    fn element_tags(&self) -> (r: &Vec<Tag>) {
        &self.tags
    }
}

/// A decision which elements of kind `E` to keep.
pub trait KeepTest<E> {
    spec fn spec_keep(&self, e: E) -> bool;

    fn keep(&self, e: &E) -> (b: bool)
        ensures
            b == self.spec_keep(*e),
    ;
}

/// The elements of `s` that `t` keeps, in their order.
pub open spec fn kept<E, T: KeepTest<E>>(t: T, s: Seq<E>) -> Seq<E>
    decreases s.len(),
{
    if s.len() == 0 {
        Seq::empty()
    } else {
        let r = kept(t, s.drop_last());
        if t.spec_keep(s.last()) {
            r.push(s.last())
        } else {
            r
        }
    }
}

/// The kept elements are exactly the elements of `s` that `t` keeps.
pub proof fn lemma_kept_contains<E, T: KeepTest<E>>(t: T, s: Seq<E>)
    ensures
        forall|x: E| kept(t, s).contains(x) <==> (s.contains(x) && t.spec_keep(x)),
    decreases s.len(),
{
    if s.len() > 0 {
        lemma_kept_contains(t, s.drop_last());
        let r = kept(t, s.drop_last());
        assert forall|x: E| kept(t, s).contains(x) <==> (s.contains(x) && t.spec_keep(x)) by {
            if s.contains(x) {
                let i = choose|i: int| 0 <= i < s.len() && s[i] == x;
                if i < s.len() - 1 {
                    assert(s.drop_last()[i] == x);
                }
            }
            if s.drop_last().contains(x) {
                let i = choose|i: int| 0 <= i < s.drop_last().len() && s.drop_last()[i] == x;
                assert(s[i] == x);
            }
            if t.spec_keep(s.last()) {
                if r.push(s.last()).contains(x) {
                    let i = choose|i: int| 0 <= i < r.push(s.last()).len() && r.push(s.last())[i] == x;
                    if i < r.len() {
                        assert(r[i] == x);
                    }
                }
                if r.contains(x) {
                    let i = choose|i: int| 0 <= i < r.len() && r[i] == x;
                    assert(r.push(s.last())[i] == x);
                }
                if x == s.last() {
                    assert(r.push(s.last())[r.len() as int] == x);
                }
            }
        }
    }
}

/// Keeping is never more than there was, and keeps the order.
pub proof fn lemma_kept_len<E, T: KeepTest<E>>(t: T, s: Seq<E>)
    ensures
        kept(t, s).len() <= s.len(),
    decreases s.len(),
{
    if s.len() > 0 {
        lemma_kept_len(t, s.drop_last());
    }
}

/// Filtering twice with the same test removes nothing more.
pub proof fn lemma_kept_idempotent<E, T: KeepTest<E>>(t: T, s: Seq<E>)
    ensures
        kept(t, kept(t, s)) == kept(t, s),
    decreases s.len(),
{
    if s.len() > 0 {
        lemma_kept_idempotent(t, s.drop_last());
        let r = kept(t, s.drop_last());
        if t.spec_keep(s.last()) {
            assert(r.push(s.last()).drop_last() =~= r);
        }
    }
}

/// Two tests that decide every element the other way split a sequence: each
/// element is kept by exactly one of them.
pub proof fn lemma_kept_partition<E, T1: KeepTest<E>, T2: KeepTest<E>>(t1: T1, t2: T2, s: Seq<E>)
    requires
        forall|e: E| #[trigger] t1.spec_keep(e) != t2.spec_keep(e),
    ensures
        kept(t1, s).to_multiset().add(kept(t2, s).to_multiset()) == s.to_multiset(),
        kept(t1, s).len() + kept(t2, s).len() == s.len(),
    decreases s.len(),
{
    broadcast use vstd::multiset::group_multiset_axioms;
    broadcast use vstd::seq_lib::to_multiset_build;
    broadcast use vstd::seq_lib::to_multiset_len;
    if s.len() == 0 {
        assert(kept(t1, s).to_multiset() =~= Multiset::<E>::empty()) by {
            Seq::<E>::empty().to_multiset_ensures();
        }
        assert(s.to_multiset() =~= Multiset::<E>::empty()) by {
            s.to_multiset_ensures();
        }
        assert(kept(t1, s).to_multiset().add(kept(t2, s).to_multiset()) =~= s.to_multiset());
    } else {
        lemma_kept_partition(t1, t2, s.drop_last());
        let x = s.last();
        assert(s.drop_last().push(x) =~= s);
        assert(kept(t1, s).to_multiset().add(kept(t2, s).to_multiset()) =~= s.to_multiset());
    }
}

/// Removes the elements that `t` does not keep; the others keep their order.
pub fn retain_kept<E, T: KeepTest<E>>(elems: &mut Vec<E>, t: &T)
    ensures
        final(elems)@ == kept(*t, old(elems)@),
{
    let ghost orig = elems@;
    let mut src: Vec<E> = Vec::new();
    std::mem::swap(&mut src, elems);
    let n = src.len();
    let mut rev: Vec<E> = Vec::new();
    // reverse `src` into `rev` so that popping yields the original order
    while src.len() > 0
        invariant
            src@ + rev@.reverse() == orig,
        decreases src.len(),
    {
        let ghost s0 = src@;
        let ghost r0 = rev@;
        let e = src.pop().unwrap();
        rev.push(e);
        assert(src@ + rev@.reverse() =~= orig) by {
            assert(rev@.reverse() =~= seq![e] + r0.reverse());
            assert(s0 =~= src@.push(e));
        }
    }
    assert(rev@.reverse() =~= orig);
    assert(orig.take(0) =~= Seq::<E>::empty());
    while rev.len() > 0
        invariant
            rev@.reverse() == orig.skip(orig.len() - rev@.len()),
            rev@.len() <= orig.len(),
            elems@ == kept(*t, orig.take(orig.len() - rev@.len())),
        decreases rev.len(),
    {
        let ghost k = orig.len() - rev@.len();
        let ghost r0 = rev@;
        let e = rev.pop().unwrap();
        proof {
            assert(r0.reverse() =~= seq![e] + rev@.reverse());
            assert(orig.skip(k)[0] == e);
            assert(orig[k] == e);
            assert(orig.take(k + 1).drop_last() =~= orig.take(k));
            assert(orig.take(k + 1).last() == e);
            assert((seq![e] + rev@.reverse()).drop_first() =~= rev@.reverse());
            assert(orig.skip(k).drop_first() =~= orig.skip(k + 1));
            assert(rev@.reverse() =~= orig.skip(k + 1));
        }
        let keep = t.keep(&e);
        if keep {
            elems.push(e);
        }
        proof {
            let tk = orig.take(k + 1);
            assert(tk.drop_last() =~= orig.take(k));
            assert(tk.last() == e);
            assert(elems@ =~= kept(*t, tk));
        }
    }
    assert(orig.take(orig.len() as int) =~= orig);
}

} // verus!
