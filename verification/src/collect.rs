//! Handlers that collect element ids in the first pass.

use vstd::prelude::*;
use bit_vec::BitVec;
use crate::bits::{
    bit_contents, bit_is_set, set_bit_for_id, set_bits_for_ids, with_bits_set, id_set, ids_in_range,
    lemma_with_bits_set_union,
};
use crate::handler::{Handler, HandlerData};
use crate::model::{Node, Way, Relation, Member, member_node_id};
use crate::element_ops::{OsmElement, kept, lemma_kept_contains};
use crate::filter::IdBitsTest;
use crate::strmap::StringMap;
use crate::selection::OsmElementTypeSelection;
use crate::text::{i64_to_string, signed_dec};

verus! {

/// The node ids that `ways` reference.
pub open spec fn way_ref_ids(ways: Seq<Way>) -> Set<int> {
    Set::new(|k: int| exists|i: int| 0 <= i < ways.len() && #[trigger] id_set(ways[i].refs@).contains(k))
}

/// Whether `m` is a node member with id `k`.
pub open spec fn references_node(m: Member, k: int) -> bool {
    member_node_id(m) matches Some(id) && id as int == k
}

/// The node ids that `members` reference.
pub open spec fn member_ids(members: Seq<Member>) -> Set<int> {
    Set::new(|k: int| exists|j: int| 0 <= j < members.len() && #[trigger] references_node(members[j], k))
}

/// The node ids that `relations` reference as node members.
pub open spec fn relation_node_ids(relations: Seq<Relation>) -> Set<int> {
    Set::new(|k: int| exists|i: int| 0 <= i < relations.len() && #[trigger] member_ids(relations[i].members@).contains(k))
}

/// Every node member of `members` has an id inside a bit set of length `len`.
pub open spec fn members_in_range(members: Seq<Member>, len: nat) -> bool {
    forall|j: int| 0 <= j < members.len() ==> (#[trigger] member_node_id(members[j]) matches Some(id) ==> 0 <= id < len)
}

/// Every node the ways and relations reference has an id inside a bit set of length `len`.
pub open spec fn references_in_range(ways: Seq<Way>, relations: Seq<Relation>, len: nat) -> bool {
    &&& forall|i: int| 0 <= i < ways.len() ==> ids_in_range(#[trigger] ways[i].refs@, len)
    &&& forall|i: int| 0 <= i < relations.len() ==> members_in_range(#[trigger] relations[i].members@, len)
}

/// Sets the bit of every node member of `members`.
fn set_member_bits(bits: &mut BitVec, members: &Vec<Member>)
    requires
        members_in_range(members@, bit_contents(*old(bits)).len()),
    ensures
        bit_contents(*final(bits)) == with_bits_set(bit_contents(*old(bits)), member_ids(members@)),
{
    let n = members.len();
    let mut j: usize = 0;
    assert(with_bits_set(bit_contents(*bits), member_ids(members@.take(0))) =~= bit_contents(*bits));
    while j < n
        invariant
            n == members@.len(),
            j <= n,
            members_in_range(members@, bit_contents(*old(bits)).len()),
            bit_contents(*bits) == with_bits_set(bit_contents(*old(bits)), member_ids(members@.take(j as int))),
        decreases n - j,
    {
        let ghost prev = bit_contents(*bits);
        let ghost done = member_ids(members@.take(j as int));
        let ghost next = member_ids(members@.take(j + 1));
        match &members[j] {
            Member::Node { member } => {
                assert(member_node_id(members@[j as int]) == Some(member.id));
                set_bit_for_id(bits, member.id);
                proof {
                    assert forall|k: int| next.contains(k) <==> (done.contains(k) || k == member.id as int) by {
                        if k == member.id as int {
                            assert(references_node(members@.take(j + 1)[j as int], k));
                        }
                        if next.contains(k) {
                            let c = choose|c: int| 0 <= c < j + 1 && #[trigger] references_node(members@.take(j + 1)[c], k);
                            if c < j {
                                assert(members@.take(j as int)[c] == members@.take(j + 1)[c]);
                            }
                        }
                        if done.contains(k) {
                            let c = choose|c: int| 0 <= c < j && #[trigger] references_node(members@.take(j as int)[c], k);
                            assert(members@.take(j + 1)[c] == members@.take(j as int)[c]);
                        }
                    }
                    let after = with_bits_set(bit_contents(*old(bits)), next);
                    assert forall|k: int| 0 <= k < after.len() implies #[trigger] bit_contents(*bits)[k] == after[k] by {
                        assert(prev[k] == with_bits_set(bit_contents(*old(bits)), done)[k]);
                    }
                    assert(bit_contents(*bits) =~= after);
                }
            },
            _ => {
                proof {
                    assert(member_node_id(members@[j as int]) is None);
                    assert forall|k: int| next.contains(k) <==> done.contains(k) by {
                        if next.contains(k) {
                            let c = choose|c: int| 0 <= c < j + 1 && #[trigger] references_node(members@.take(j + 1)[c], k);
                            assert(c != j);
                            assert(members@.take(j as int)[c] == members@.take(j + 1)[c]);
                        }
                        if done.contains(k) {
                            let c = choose|c: int| 0 <= c < j && #[trigger] references_node(members@.take(j as int)[c], k);
                            assert(members@.take(j + 1)[c] == members@.take(j as int)[c]);
                        }
                    }
                    assert(next =~= done);
                }
            },
        }
        j = j + 1;
    }
    assert(members@.take(n as int) =~= members@);
}

/// Marks the nodes that accepted ways and relations reference, in
/// `accept_node_ids`, so that the second pass keeps exactly those nodes.
pub struct ReferencedNodeIdCollector {}

impl ReferencedNodeIdCollector {
    pub fn default() -> (c: Self) {
        ReferencedNodeIdCollector {}
    }

    /// Sets the bit of every node that the ways and relations in flight reference.
    pub fn collect(&self, data: &mut HandlerData)
        requires
            references_in_range(old(data).ways@, old(data).relations@, bit_contents(old(data).accept_node_ids).len()),
        ensures
            bit_contents(final(data).accept_node_ids) == with_bits_set(
                bit_contents(old(data).accept_node_ids),
                way_ref_ids(old(data).ways@).union(relation_node_ids(old(data).relations@)),
            ),
            *final(data) == (HandlerData { accept_node_ids: final(data).accept_node_ids, ..*old(data) }),
    {
        let ghost b0 = bit_contents(data.accept_node_ids);
        let ghost len = b0.len();
        let n = data.ways.len();
        let mut i: usize = 0;
        assert(way_ref_ids(data.ways@.take(0)) =~= Set::<int>::empty());
        assert(with_bits_set(b0, Set::<int>::empty()) =~= b0);
        while i < n
            invariant
                n == data.ways@.len(),
                i <= n,
                *data == (HandlerData { accept_node_ids: data.accept_node_ids, ..*old(data) }),
                references_in_range(data.ways@, data.relations@, len),
                b0 == bit_contents(old(data).accept_node_ids),
                len == b0.len(),
                bit_contents(data.accept_node_ids) == with_bits_set(b0, way_ref_ids(data.ways@.take(i as int))),
            decreases n - i,
        {
            let ghost done = way_ref_ids(data.ways@.take(i as int));
            assert(bit_contents(data.accept_node_ids).len() == len);
            assert(ids_in_range(data.ways@[i as int].refs@, len));
            set_bits_for_ids(&mut data.accept_node_ids, &data.ways[i].refs);
            proof {
                let r = id_set(data.ways@[i as int].refs@);
                lemma_with_bits_set_union(b0, done, r);
                let next = way_ref_ids(data.ways@.take(i + 1));
                assert forall|k: int| next.contains(k) <==> done.union(r).contains(k) by {
                    if next.contains(k) {
                        let c = choose|c: int| 0 <= c < i + 1 && #[trigger] id_set(data.ways@.take(i + 1)[c].refs@).contains(k);
                        if c < i {
                            assert(data.ways@.take(i as int)[c] == data.ways@.take(i + 1)[c]);
                        }
                    }
                    if done.contains(k) {
                        let c = choose|c: int| 0 <= c < i && #[trigger] id_set(data.ways@.take(i as int)[c].refs@).contains(k);
                        assert(data.ways@.take(i + 1)[c] == data.ways@.take(i as int)[c]);
                    }
                    if r.contains(k) {
                        assert(data.ways@.take(i + 1)[i as int] == data.ways@[i as int]);
                    }
                }
                assert(next =~= done.union(r));
            }
            i = i + 1;
        }
        assert(data.ways@.take(n as int) =~= data.ways@);
        let ghost wset = way_ref_ids(data.ways@);
        let m = data.relations.len();
        let mut i: usize = 0;
        assert(relation_node_ids(data.relations@.take(0)) =~= Set::<int>::empty());
        assert(wset.union(Set::<int>::empty()) =~= wset);
        while i < m
            invariant
                m == data.relations@.len(),
                i <= m,
                *data == (HandlerData { accept_node_ids: data.accept_node_ids, ..*old(data) }),
                references_in_range(data.ways@, data.relations@, len),
                b0 == bit_contents(old(data).accept_node_ids),
                len == b0.len(),
                wset == way_ref_ids(old(data).ways@),
                bit_contents(data.accept_node_ids) == with_bits_set(b0, wset.union(relation_node_ids(data.relations@.take(i as int)))),
            decreases m - i,
        {
            let ghost done = relation_node_ids(data.relations@.take(i as int));
            assert(bit_contents(data.accept_node_ids).len() == len);
            assert(members_in_range(data.relations@[i as int].members@, len));
            set_member_bits(&mut data.accept_node_ids, &data.relations[i].members);
            proof {
                let r = member_ids(data.relations@[i as int].members@);
                lemma_with_bits_set_union(b0, wset.union(done), r);
                let next = relation_node_ids(data.relations@.take(i + 1));
                assert forall|k: int| next.contains(k) <==> done.union(r).contains(k) by {
                    if next.contains(k) {
                        let c = choose|c: int| 0 <= c < i + 1 && #[trigger] member_ids(data.relations@.take(i + 1)[c].members@).contains(k);
                        if c < i {
                            assert(data.relations@.take(i as int)[c] == data.relations@.take(i + 1)[c]);
                        }
                    }
                    if done.contains(k) {
                        let c = choose|c: int| 0 <= c < i && #[trigger] member_ids(data.relations@.take(i as int)[c].members@).contains(k);
                        assert(data.relations@.take(i + 1)[c] == data.relations@.take(i as int)[c]);
                    }
                    if r.contains(k) {
                        assert(data.relations@.take(i + 1)[i as int] == data.relations@[i as int]);
                    }
                }
                assert(wset.union(done).union(r) =~= wset.union(next));
            }
            i = i + 1;
        }
        assert(data.relations@.take(m as int) =~= data.relations@);
    }

    /// Whether every node the ways and relations in flight reference has a bit.
    pub fn references_fit(data: &HandlerData) -> (b: bool)
        ensures
            b == references_in_range(data.ways@, data.relations@, bit_contents(data.accept_node_ids).len()),
    {
        let len = crate::bits::bits_len(&data.accept_node_ids);
        let n = data.ways.len();
        let mut i: usize = 0;
        while i < n
            invariant
                n == data.ways@.len(),
                i <= n,
                len == bit_contents(data.accept_node_ids).len(),
                forall|a: int| 0 <= a < i ==> ids_in_range(#[trigger] data.ways@[a].refs@, len as nat),
            decreases n - i,
        {
            if !crate::bits::ids_fit(&data.ways[i].refs, len) {
                return false;
            }
            i = i + 1;
        }
        let m = data.relations.len();
        let mut i: usize = 0;
        while i < m
            invariant
                m == data.relations@.len(),
                i <= m,
                len == bit_contents(data.accept_node_ids).len(),
                forall|a: int| 0 <= a < n ==> ids_in_range(#[trigger] data.ways@[a].refs@, len as nat),
                forall|a: int| 0 <= a < i ==> members_in_range(#[trigger] data.relations@[a].members@, len as nat),
            decreases m - i,
        {
            if !members_fit(&data.relations[i].members, len) {
                return false;
            }
            i = i + 1;
        }
        true
    }
}

/// Whether every node member of `members` has an id below `len`.
fn members_fit(members: &Vec<Member>, len: usize) -> (b: bool)
    ensures
        b == members_in_range(members@, len as nat),
{
    let n = members.len();
    let mut j: usize = 0;
    while j < n
        invariant
            n == members@.len(),
            j <= n,
            forall|a: int| 0 <= a < j ==> (#[trigger] member_node_id(members@[a]) matches Some(id) ==> 0 <= id < len),
        decreases n - j,
    {
        match &members[j] {
            Member::Node { member } => {
                if member.id < 0 || member.id as u64 >= len as u64 {
                    assert(member_node_id(members@[j as int]) == Some(member.id));
                    return false;
                }
            },
            _ => {},
        }
        j = j + 1;
    }
    true
}

impl Handler for ReferencedNodeIdCollector {
    open spec fn handled(&self, before: HandlerData, after: HandlerData) -> bool {
        &&& references_in_range(before.ways@, before.relations@, bit_contents(before.accept_node_ids).len())
                ==> bit_contents(after.accept_node_ids) == with_bits_set(
                    bit_contents(before.accept_node_ids),
                    way_ref_ids(before.ways@).union(relation_node_ids(before.relations@)),
                )
        &&& after == (HandlerData { accept_node_ids: after.accept_node_ids, ..before })
        &&& !references_in_range(before.ways@, before.relations@, bit_contents(before.accept_node_ids).len())
                ==> after == before
    }

    open spec fn flushed(&self, before: HandlerData, after: HandlerData) -> bool {
        self.handled(before, after)
    }

    open spec fn handled_after_flush(&self, flushed: HandlerData, before: HandlerData, after: HandlerData) -> bool {
        self.handled(before, after)
    }

    open spec fn handled_after_handle(&self, handled: HandlerData, before: HandlerData, after: HandlerData) -> bool {
        self.handled(before, after)
    }

    open spec fn handled_after_close(&self, closed: HandlerData, before: HandlerData, after: HandlerData) -> bool {
        self.handled(before, after)
    }

    open spec fn closed(&self, before: HandlerData, after: HandlerData) -> bool {
        after == before
    }

    fn name(&self) -> (s: String)
        ensures
            s@ == "ReferencedNodeIdCollector"@,
    {
        "ReferencedNodeIdCollector".to_owned()
    }

    /// Marks the referenced nodes; where a referenced id lies outside the bit
    /// set, the elements in flight are left unmarked.
    fn handle(&mut self, data: &mut HandlerData)
        ensures
            references_in_range(old(data).ways@, old(data).relations@, bit_contents(old(data).accept_node_ids).len())
                ==> bit_contents(final(data).accept_node_ids) == with_bits_set(
                    bit_contents(old(data).accept_node_ids),
                    way_ref_ids(old(data).ways@).union(relation_node_ids(old(data).relations@)),
                ),
            *final(data) == (HandlerData { accept_node_ids: final(data).accept_node_ids, ..*old(data) }),
            !references_in_range(old(data).ways@, old(data).relations@, bit_contents(old(data).accept_node_ids).len())
                ==> *final(data) == *old(data),
    {
        if Self::references_fit(data) {
            self.collect(data);
        }
    }

    /// Buffers nothing, so flushing is handling.
    fn flush(&mut self, data: &mut HandlerData) {
        self.handle(data)
    }

    /// Records nothing.
    fn close(&mut self, data: &mut HandlerData) {
    }
}

/// The id as an index, when it is not negative and fits in `usize`.
pub fn safe_id(i: i64) -> (r: Option<usize>)
    ensures
        r == (if 0 <= i <= usize::MAX { Some(i as usize) } else { None::<usize> }),
{
    if i >= 0 {
        if i as u64 <= usize::MAX as u64 {
            Some(i as usize)
        } else {
            None
        }
    } else {
        None
    }
}

/// The ids of `elements` that are not negative.
pub open spec fn nonneg_ids<E: OsmElement>(elements: Seq<E>) -> Set<int> {
    Set::new(|k: int| 0 <= k && exists|i: int| 0 <= i < elements.len() && #[trigger] elements[i].spec_id() as int == k)
}

/// Every non-negative id of `elements` lies below `len`.
pub open spec fn nonneg_ids_in_range<E: OsmElement>(elements: Seq<E>, len: nat) -> bool {
    forall|i: int| 0 <= i < elements.len() ==> (0 <= #[trigger] elements[i].spec_id() ==> elements[i].spec_id() < len)
}

/// Sets the bit of every element whose id is not negative.
fn set_bits_for_elements<E: OsmElement>(bits: &mut BitVec, elements: &Vec<E>)
    requires
        nonneg_ids_in_range(elements@, bit_contents(*old(bits)).len()),
    ensures
        bit_contents(*final(bits)) == with_bits_set(bit_contents(*old(bits)), nonneg_ids(elements@)),
{
    let len = crate::bits::bits_len(bits);
    let n = elements.len();
    let mut i: usize = 0;
    assert(with_bits_set(bit_contents(*bits), nonneg_ids(elements@.take(0))) =~= bit_contents(*bits));
    while i < n
        invariant
            n == elements@.len(),
            i <= n,
            len == bit_contents(*old(bits)).len(),
            nonneg_ids_in_range(elements@, bit_contents(*old(bits)).len()),
            bit_contents(*bits) == with_bits_set(bit_contents(*old(bits)), nonneg_ids(elements@.take(i as int))),
        decreases n - i,
    {
        let ghost prev = bit_contents(*bits);
        let ghost done = nonneg_ids(elements@.take(i as int));
        let ghost next = nonneg_ids(elements@.take(i + 1));
        let id = elements[i].element_id();
        match safe_id(id) {
            Some(u) => {
                set_bit_for_id(bits, id);
                proof {
                    assert forall|k: int| next.contains(k) <==> (done.contains(k) || k == id as int) by {
                        if k == id as int {
                            assert(elements@.take(i + 1)[i as int].spec_id() as int == k);
                        }
                        if next.contains(k) {
                            let c = choose|c: int| 0 <= c < i + 1 && #[trigger] elements@.take(i + 1)[c].spec_id() as int == k;
                            if c < i {
                                assert(elements@.take(i as int)[c] == elements@.take(i + 1)[c]);
                            }
                        }
                        if done.contains(k) {
                            let c = choose|c: int| 0 <= c < i && #[trigger] elements@.take(i as int)[c].spec_id() as int == k;
                            assert(elements@.take(i + 1)[c] == elements@.take(i as int)[c]);
                        }
                    }
                    let after = with_bits_set(bit_contents(*old(bits)), next);
                    assert forall|k: int| 0 <= k < after.len() implies #[trigger] bit_contents(*bits)[k] == after[k] by {
                        assert(prev[k] == with_bits_set(bit_contents(*old(bits)), done)[k]);
                    }
                    assert(bit_contents(*bits) =~= after);
                }
            },
            None => {
                proof {
                    assert forall|k: int| next.contains(k) <==> done.contains(k) by {
                        if next.contains(k) {
                            let c = choose|c: int| 0 <= c < i + 1 && #[trigger] elements@.take(i + 1)[c].spec_id() as int == k;
                            if c < i {
                                assert(elements@.take(i as int)[c] == elements@.take(i + 1)[c]);
                            } else {
                                assert(elements@.take(i + 1)[c] == elements@[i as int]);
                            }
                        }
                        if done.contains(k) {
                            let c = choose|c: int| 0 <= c < i && #[trigger] elements@.take(i as int)[c].spec_id() as int == k;
                            assert(elements@.take(i + 1)[c] == elements@.take(i as int)[c]);
                        }
                    }
                    assert(next =~= done);
                }
            },
        }
        i = i + 1;
    }
    assert(elements@.take(n as int) =~= elements@);
}

/// Whether every non-negative id of `elements` lies below `len`.
fn nonneg_ids_fit<E: OsmElement>(elements: &Vec<E>, len: usize) -> (b: bool)
    ensures
        b == nonneg_ids_in_range(elements@, len as nat),
{
    let n = elements.len();
    let mut i: usize = 0;
    while i < n
        invariant
            n == elements@.len(),
            i <= n,
            forall|j: int| 0 <= j < i ==> (0 <= #[trigger] elements@[j].spec_id() ==> elements@[j].spec_id() < len),
        decreases n - i,
    {
        let id = elements[i].element_id();
        if id >= 0 && id as u64 >= len as u64 {
            return false;
        }
        i = i + 1;
    }
    true
}

/// Marks the ids of the elements of the handled kinds in the `accept_*_ids`
/// bit sets; negative ids are skipped.
pub struct IdCollector {
    pub handle_types: OsmElementTypeSelection,
}

impl IdCollector {
    pub fn collect(&self, data: &mut HandlerData)
        requires
            self.handle_types.node ==> nonneg_ids_in_range(old(data).nodes@, bit_contents(old(data).accept_node_ids).len()),
            self.handle_types.way ==> nonneg_ids_in_range(old(data).ways@, bit_contents(old(data).accept_way_ids).len()),
            self.handle_types.relation ==> nonneg_ids_in_range(old(data).relations@, bit_contents(old(data).accept_relation_ids).len()),
        ensures
            bit_contents(final(data).accept_node_ids) == if self.handle_types.node {
                with_bits_set(bit_contents(old(data).accept_node_ids), nonneg_ids(old(data).nodes@))
            } else {
                bit_contents(old(data).accept_node_ids)
            },
            bit_contents(final(data).accept_way_ids) == if self.handle_types.way {
                with_bits_set(bit_contents(old(data).accept_way_ids), nonneg_ids(old(data).ways@))
            } else {
                bit_contents(old(data).accept_way_ids)
            },
            bit_contents(final(data).accept_relation_ids) == if self.handle_types.relation {
                with_bits_set(bit_contents(old(data).accept_relation_ids), nonneg_ids(old(data).relations@))
            } else {
                bit_contents(old(data).accept_relation_ids)
            },
            *final(data) == (HandlerData {
                accept_node_ids: final(data).accept_node_ids,
                accept_way_ids: final(data).accept_way_ids,
                accept_relation_ids: final(data).accept_relation_ids,
                ..*old(data)
            }),
    {
        if self.handle_types.node {
            set_bits_for_elements(&mut data.accept_node_ids, &data.nodes);
        }
        if self.handle_types.way {
            set_bits_for_elements(&mut data.accept_way_ids, &data.ways);
        }
        if self.handle_types.relation {
            set_bits_for_elements(&mut data.accept_relation_ids, &data.relations);
        }
    }

    /// Whether every id `collect` would mark has a bit.
    pub fn ids_fit(&self, data: &HandlerData) -> (b: bool)
        ensures
            b == ((self.handle_types.node ==> nonneg_ids_in_range(data.nodes@, bit_contents(data.accept_node_ids).len()))
                && (self.handle_types.way ==> nonneg_ids_in_range(data.ways@, bit_contents(data.accept_way_ids).len()))
                && (self.handle_types.relation ==> nonneg_ids_in_range(data.relations@, bit_contents(data.accept_relation_ids).len()))),
    {
        (!self.handle_types.node || nonneg_ids_fit(&data.nodes, crate::bits::bits_len(&data.accept_node_ids)))
            && (!self.handle_types.way || nonneg_ids_fit(&data.ways, crate::bits::bits_len(&data.accept_way_ids)))
            && (!self.handle_types.relation || nonneg_ids_fit(&data.relations, crate::bits::bits_len(&data.accept_relation_ids)))
    }
}

impl Handler for IdCollector {
    open spec fn handled(&self, before: HandlerData, after: HandlerData) -> bool {
        &&& ({
                let fits = (self.handle_types.node ==> nonneg_ids_in_range(before.nodes@, bit_contents(before.accept_node_ids).len()))
                    && (self.handle_types.way ==> nonneg_ids_in_range(before.ways@, bit_contents(before.accept_way_ids).len()))
                    && (self.handle_types.relation ==> nonneg_ids_in_range(before.relations@, bit_contents(before.accept_relation_ids).len()));
                &&& !fits ==> after == before
                &&& fits ==> bit_contents(after.accept_node_ids) == if self.handle_types.node {
                    with_bits_set(bit_contents(before.accept_node_ids), nonneg_ids(before.nodes@))
                } else {
                    bit_contents(before.accept_node_ids)
                }
                &&& fits ==> bit_contents(after.accept_way_ids) == if self.handle_types.way {
                    with_bits_set(bit_contents(before.accept_way_ids), nonneg_ids(before.ways@))
                } else {
                    bit_contents(before.accept_way_ids)
                }
                &&& fits ==> bit_contents(after.accept_relation_ids) == if self.handle_types.relation {
                    with_bits_set(bit_contents(before.accept_relation_ids), nonneg_ids(before.relations@))
                } else {
                    bit_contents(before.accept_relation_ids)
                }
            })
        &&& after == (HandlerData {
                accept_node_ids: after.accept_node_ids,
                accept_way_ids: after.accept_way_ids,
                accept_relation_ids: after.accept_relation_ids,
                ..before
            })
    }

    open spec fn flushed(&self, before: HandlerData, after: HandlerData) -> bool {
        self.handled(before, after)
    }

    open spec fn handled_after_flush(&self, flushed: HandlerData, before: HandlerData, after: HandlerData) -> bool {
        self.handled(before, after)
    }

    open spec fn handled_after_handle(&self, handled: HandlerData, before: HandlerData, after: HandlerData) -> bool {
        self.handled(before, after)
    }

    open spec fn handled_after_close(&self, closed: HandlerData, before: HandlerData, after: HandlerData) -> bool {
        self.handled(before, after)
    }

    open spec fn closed(&self, before: HandlerData, after: HandlerData) -> bool {
        after == before
    }

    fn name(&self) -> (s: String)
        ensures
            s@ == "IdCollector"@,
    {
        "IdCollector".to_owned()
    }

    /// Marks the ids; where an id lies outside its bit set, the elements in
    /// flight are left unmarked.
    fn handle(&mut self, data: &mut HandlerData)
        ensures
            ({
                let fits = (old(self).handle_types.node ==> nonneg_ids_in_range(old(data).nodes@, bit_contents(old(data).accept_node_ids).len()))
                    && (old(self).handle_types.way ==> nonneg_ids_in_range(old(data).ways@, bit_contents(old(data).accept_way_ids).len()))
                    && (old(self).handle_types.relation ==> nonneg_ids_in_range(old(data).relations@, bit_contents(old(data).accept_relation_ids).len()));
                &&& !fits ==> *final(data) == *old(data)
                &&& fits ==> bit_contents(final(data).accept_node_ids) == if old(self).handle_types.node {
                    with_bits_set(bit_contents(old(data).accept_node_ids), nonneg_ids(old(data).nodes@))
                } else {
                    bit_contents(old(data).accept_node_ids)
                }
                &&& fits ==> bit_contents(final(data).accept_way_ids) == if old(self).handle_types.way {
                    with_bits_set(bit_contents(old(data).accept_way_ids), nonneg_ids(old(data).ways@))
                } else {
                    bit_contents(old(data).accept_way_ids)
                }
                &&& fits ==> bit_contents(final(data).accept_relation_ids) == if old(self).handle_types.relation {
                    with_bits_set(bit_contents(old(data).accept_relation_ids), nonneg_ids(old(data).relations@))
                } else {
                    bit_contents(old(data).accept_relation_ids)
                }
            }),
            *final(data) == (HandlerData {
                accept_node_ids: final(data).accept_node_ids,
                accept_way_ids: final(data).accept_way_ids,
                accept_relation_ids: final(data).accept_relation_ids,
                ..*old(data)
            }),
            *final(self) == *old(self),
    {
        if self.ids_fit(data) {
            self.collect(data);
        }
    }

    /// Buffers nothing, so flushing is handling.
    fn flush(&mut self, data: &mut HandlerData) {
        self.handle(data)
    }

    /// Records nothing.
    fn close(&mut self, data: &mut HandlerData) {
    }
}

/// The smallest and largest positive ids, and the smallest and largest ids
/// that are not positive.
pub struct IdRange {
    pub min_pos: i64,
    pub max_pos: i64,
    pub min_neg: i64,
    pub max_neg: i64,
}

pub open spec fn min_i64(a: i64, b: i64) -> i64 {
    if a <= b { a } else { b }
}

pub open spec fn max_i64(a: i64, b: i64) -> i64 {
    if a >= b { a } else { b }
}

/// `r` after seeing `id`: a positive id updates the positive bounds, any
/// other the bounds of the non-positive ids.
pub open spec fn range_step(r: IdRange, id: i64) -> IdRange {
    if id > 0 {
        IdRange { min_pos: min_i64(r.min_pos, id), max_pos: max_i64(r.max_pos, id), ..r }
    } else {
        IdRange { min_neg: min_i64(r.min_neg, id), max_neg: max_i64(r.max_neg, id), ..r }
    }
}

/// `r` after seeing every id of `ids` in turn.
pub open spec fn range_over(r: IdRange, ids: Seq<i64>) -> IdRange
    decreases ids.len(),
{
    if ids.len() == 0 {
        r
    } else {
        range_step(range_over(r, ids.drop_last()), ids.last())
    }
}

/// The ids of `elements`, in order.
pub open spec fn element_ids<E: OsmElement>(elements: Seq<E>) -> Seq<i64> {
    elements.map_values(|e: E| e.spec_id())
}

impl IdRange {
    /// The bounds before any id was seen: the positive bounds start at the
    /// extremes of `i64`, the non-positive ones at zero.
    pub fn initial() -> (r: Self)
        ensures
            r == (IdRange { min_pos: i64::MAX, max_pos: i64::MIN, min_neg: 0, max_neg: 0 }),
    {
        IdRange { min_pos: i64::MAX, max_pos: i64::MIN, min_neg: 0, max_neg: 0 }
    }

    /// Takes the ids of `elements` into account.
    pub fn update<E: OsmElement>(&mut self, elements: &Vec<E>)
        ensures
            *final(self) == range_over(*old(self), element_ids(elements@)),
    {
        let n = elements.len();
        let mut i: usize = 0;
        while i < n
            invariant
                n == elements@.len(),
                i <= n,
                *self == range_over(*old(self), element_ids(elements@.take(i as int))),
            decreases n - i,
        {
            let id = elements[i].element_id();
            proof {
                assert(element_ids(elements@.take(i + 1)).drop_last() =~= element_ids(elements@.take(i as int)));
                assert(element_ids(elements@.take(i + 1)).last() == id);
            }
            if id > 0 {
                if id < self.min_pos {
                    self.min_pos = id;
                }
                if id > self.max_pos {
                    self.max_pos = id;
                }
            } else {
                if id < self.min_neg {
                    self.min_neg = id;
                }
                if id > self.max_neg {
                    self.max_neg = id;
                }
            }
            i = i + 1;
        }
        assert(elements@.take(n as int) =~= elements@);
    }
}

/// `m` with the four bounds of `r` recorded under `min_pos_<kind>_id`,
/// `max_pos_<kind>_id`, `min_neg_<kind>_id` and `max_neg_<kind>_id`.
pub open spec fn with_range(m: Map<Seq<char>, Seq<char>>, kind: Seq<char>, r: IdRange) -> Map<Seq<char>, Seq<char>> {
    m.insert("min_pos_"@ + kind + "_id"@, signed_dec(r.min_pos as int))
        .insert("max_pos_"@ + kind + "_id"@, signed_dec(r.max_pos as int))
        .insert("min_neg_"@ + kind + "_id"@, signed_dec(r.min_neg as int))
        .insert("max_neg_"@ + kind + "_id"@, signed_dec(r.max_neg as int))
}

/// `prefix` + `kind` + "_id".
fn range_key(prefix: &str, kind: &str) -> (s: String)
    ensures
        s@ == prefix@ + kind@ + "_id"@,
{
    let mut s = prefix.to_owned();
    s.append(kind);
    s.append("_id");
    s
}

/// Records the bounds of `r` for the element kind `kind`.
fn record_range(other: &mut StringMap, kind: &str, r: &IdRange)
    ensures
        final(other).view() == with_range(old(other).view(), kind@, *r),
{
    other.insert(range_key("min_pos_", kind), i64_to_string(r.min_pos));
    other.insert(range_key("max_pos_", kind), i64_to_string(r.max_pos));
    other.insert(range_key("min_neg_", kind), i64_to_string(r.min_neg));
    other.insert(range_key("max_neg_", kind), i64_to_string(r.max_neg));
}

/// Finds the smallest and largest ids of each handled kind of element, and
/// records them as other results when closed.
pub struct MinMaxIdCollector {
    pub handle_types: OsmElementTypeSelection,
    pub node_ids: IdRange,
    pub way_ids: IdRange,
    pub relation_ids: IdRange,
}

impl MinMaxIdCollector {
    pub fn new(handle_types: OsmElementTypeSelection) -> (c: Self)
        ensures
            c.handle_types == handle_types,
            c.node_ids == (IdRange { min_pos: i64::MAX, max_pos: i64::MIN, min_neg: 0, max_neg: 0 }),
            c.way_ids == c.node_ids,
            c.relation_ids == c.node_ids,
    {
        Self {
            handle_types,
            node_ids: IdRange::initial(),
            way_ids: IdRange::initial(),
            relation_ids: IdRange::initial(),
        }
    }

    /// Takes the ids of the elements in flight of the handled kinds into account.
    pub fn observe(&mut self, data: &HandlerData)
        ensures
            final(self).handle_types == old(self).handle_types,
            final(self).node_ids == if old(self).handle_types.node {
                range_over(old(self).node_ids, element_ids(data.nodes@))
            } else {
                old(self).node_ids
            },
            final(self).way_ids == if old(self).handle_types.way {
                range_over(old(self).way_ids, element_ids(data.ways@))
            } else {
                old(self).way_ids
            },
            final(self).relation_ids == if old(self).handle_types.relation {
                range_over(old(self).relation_ids, element_ids(data.relations@))
            } else {
                old(self).relation_ids
            },
    {
        if self.handle_types.node {
            self.node_ids.update(&data.nodes);
        }
        if self.handle_types.way {
            self.way_ids.update(&data.ways);
        }
        if self.handle_types.relation {
            self.relation_ids.update(&data.relations);
        }
    }

    /// Records the bounds of each handled kind among the other results.
    pub fn record(&self, data: &mut HandlerData)
        ensures
            final(data).other.view() == {
                let m0 = old(data).other.view();
                let m1 = if self.handle_types.node { with_range(m0, "node"@, self.node_ids) } else { m0 };
                let m2 = if self.handle_types.way { with_range(m1, "way"@, self.way_ids) } else { m1 };
                if self.handle_types.relation { with_range(m2, "relation"@, self.relation_ids) } else { m2 }
            },
            *final(data) == (HandlerData { other: final(data).other, ..*old(data) }),
    {
        if self.handle_types.node {
            record_range(&mut data.other, "node", &self.node_ids);
        }
        if self.handle_types.way {
            record_range(&mut data.other, "way", &self.way_ids);
        }
        if self.handle_types.relation {
            record_range(&mut data.other, "relation", &self.relation_ids);
        }
    }
}

impl Handler for MinMaxIdCollector {
    open spec fn handled(&self, before: HandlerData, after: HandlerData) -> bool {
        after == before
    }

    open spec fn flushed(&self, before: HandlerData, after: HandlerData) -> bool {
        self.handled(before, after)
    }

    open spec fn handled_after_flush(&self, flushed: HandlerData, before: HandlerData, after: HandlerData) -> bool {
        self.handled(before, after)
    }

    open spec fn handled_after_handle(&self, handled: HandlerData, before: HandlerData, after: HandlerData) -> bool {
        self.handled(before, after)
    }

    open spec fn handled_after_close(&self, closed: HandlerData, before: HandlerData, after: HandlerData) -> bool {
        self.handled(before, after)
    }

    open spec fn closed(&self, before: HandlerData, after: HandlerData) -> bool {
        &&& after.other.view() == {
                let m0 = before.other.view();
                let m1 = if self.handle_types.node { with_range(m0, "node"@, self.node_ids) } else { m0 };
                let m2 = if self.handle_types.way { with_range(m1, "way"@, self.way_ids) } else { m1 };
                if self.handle_types.relation { with_range(m2, "relation"@, self.relation_ids) } else { m2 }
            }
        &&& after == (HandlerData { other: after.other, ..before })
    }

    fn name(&self) -> (s: String)
        ensures
            s@ == "MinMaxIdCollector"@,
    {
        "MinMaxIdCollector".to_owned()
    }

    /// Takes the ids in flight into account; the data stays as it is.
    fn handle(&mut self, data: &mut HandlerData)
        ensures
            *final(data) == *old(data),
            final(self).handle_types == old(self).handle_types,
            final(self).node_ids == if old(self).handle_types.node {
                range_over(old(self).node_ids, element_ids(old(data).nodes@))
            } else {
                old(self).node_ids
            },
            final(self).way_ids == if old(self).handle_types.way {
                range_over(old(self).way_ids, element_ids(old(data).ways@))
            } else {
                old(self).way_ids
            },
            final(self).relation_ids == if old(self).handle_types.relation {
                range_over(old(self).relation_ids, element_ids(old(data).relations@))
            } else {
                old(self).relation_ids
            },
    {
        self.observe(data)
    }

    /// Records the bounds of each handled kind among the other results.
    fn close(&mut self, data: &mut HandlerData)
        ensures
            *final(self) == *old(self),
            final(data).other.view() == {
                let m0 = old(data).other.view();
                let m1 = if old(self).handle_types.node { with_range(m0, "node"@, old(self).node_ids) } else { m0 };
                let m2 = if old(self).handle_types.way { with_range(m1, "way"@, old(self).way_ids) } else { m1 };
                if old(self).handle_types.relation { with_range(m2, "relation"@, old(self).relation_ids) } else { m2 }
            },
            *final(data) == (HandlerData { other: final(data).other, ..*old(data) }),
    {
        self.record(data)
    }

    /// Buffers nothing, so flushing is handling.
    fn flush(&mut self, data: &mut HandlerData) {
        self.handle(data)
    }
}

// ---------------------------------------------------------------------------
// Laws

/// After the first pass marked, in bits that were all clear, the nodes that
/// `ways` and `relations` reference, the second pass keeps a node exactly
/// when it is referenced and has a bit.
pub proof fn lemma_referenced_nodes_kept(len: nat, ways: Seq<Way>, relations: Seq<Relation>, id: i64)
    ensures
        bit_is_set(
            with_bits_set(Seq::new(len, |_i: int| false), way_ref_ids(ways).union(relation_node_ids(relations))),
            id as int,
        ) <==> (0 <= id < len && (way_ref_ids(ways).contains(id as int) || relation_node_ids(relations).contains(id as int))),
{
}

/// Node filtering over both passes: when the first pass marked, in bits that
/// were all clear, the nodes that `ways` and `relations` reference, the
/// node filter of the second pass keeps exactly those nodes that are
/// referenced and have a bit.
pub proof fn lemma_node_filtering_keeps_referenced_nodes(
    bits: BitVec,
    len: nat,
    ways: Seq<Way>,
    relations: Seq<Relation>,
    nodes: Seq<Node>,
)
    requires
        bit_contents(bits) == with_bits_set(
            Seq::new(len, |_i: int| false),
            way_ref_ids(ways).union(relation_node_ids(relations)),
        ),
    ensures
        forall|n: Node| #[trigger] kept(IdBitsTest { bits: &bits }, nodes).contains(n) <==> (nodes.contains(n)
            && 0 <= n.id < len
            && (way_ref_ids(ways).contains(n.id as int) || relation_node_ids(relations).contains(n.id as int))),
{
    let t = IdBitsTest { bits: &bits };
    lemma_kept_contains::<Node, IdBitsTest>(t, nodes);
    assert forall|n: Node| #[trigger] kept(t, nodes).contains(n) <==> (nodes.contains(n) && 0 <= n.id < len
        && (way_ref_ids(ways).contains(n.id as int) || relation_node_ids(relations).contains(n.id as int))) by {
        lemma_referenced_nodes_kept(len, ways, relations, n.id);
    }
}

/// The bounds cover every id seen: positive ids lie between the positive
/// bounds, the others between the non-positive bounds.
pub proof fn lemma_range_over_bounds(r: IdRange, ids: Seq<i64>)
    ensures
        forall|i: int| 0 <= i < ids.len() && #[trigger] ids[i] > 0 ==>
            range_over(r, ids).min_pos <= ids[i] <= range_over(r, ids).max_pos,
        forall|i: int| 0 <= i < ids.len() && #[trigger] ids[i] <= 0 ==>
            range_over(r, ids).min_neg <= ids[i] <= range_over(r, ids).max_neg,
        range_over(r, ids).min_pos <= r.min_pos,
        range_over(r, ids).max_pos >= r.max_pos,
        range_over(r, ids).min_neg <= r.min_neg,
        range_over(r, ids).max_neg >= r.max_neg,
    decreases ids.len(),
{
    if ids.len() > 0 {
        lemma_range_over_bounds(r, ids.drop_last());
        assert forall|i: int| 0 <= i < ids.len() - 1 implies #[trigger] ids[i] == ids.drop_last()[i] by {}
    }
}

} // verus!
