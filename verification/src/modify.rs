//! Removes the editing metadata of elements.

use vstd::prelude::*;
use crate::handler::{Handler, HandlerData};
use crate::model::{Node, Way, Relation};
use crate::element_ops::{OsmElement, KeepTest, kept};
use crate::filter::ComplexElementsFilter;

verus! {

/// `m` is `n` without metadata: version, timestamp, changeset and uid are
/// zero and the user is empty; id, coordinates, visibility, tags, node
/// references and members stay.
pub open spec fn stripped_node(n: Node, m: Node) -> bool {
    &&& m == (Node { version: 0, timestamp: 0, changeset: 0, uid: 0, user: m.user, ..n })
    &&& m.user@ == Seq::<char>::empty()
}

/// `m` is `w` without metadata.
pub open spec fn stripped_way(w: Way, m: Way) -> bool {
    &&& m == (Way { version: 0, timestamp: 0, changeset: 0, uid: 0, user: m.user, ..w })
    &&& m.user@ == Seq::<char>::empty()
}

/// `m` is `r` without metadata.
pub open spec fn stripped_relation(r: Relation, m: Relation) -> bool {
    &&& m == (Relation { version: 0, timestamp: 0, changeset: 0, uid: 0, user: m.user, ..r })
    &&& m.user@ == Seq::<char>::empty()
}

/// Every element of `after` is the one at the same place in `before` without metadata.
pub open spec fn all_stripped(
    nodes: Seq<Node>,
    ways: Seq<Way>,
    relations: Seq<Relation>,
    after: HandlerData,
) -> bool {
    &&& after.nodes@.len() == nodes.len()
    &&& after.ways@.len() == ways.len()
    &&& after.relations@.len() == relations.len()
    &&& forall|i: int| 0 <= i < nodes.len() ==> stripped_node(nodes[i], #[trigger] after.nodes@[i])
    &&& forall|i: int| 0 <= i < ways.len() ==> stripped_way(ways[i], #[trigger] after.ways@[i])
    &&& forall|i: int| 0 <= i < relations.len() ==> stripped_relation(relations[i], #[trigger] after.relations@[i])
}

impl Node {
    /// Clears version, timestamp, changeset, uid and user.
    pub fn remove_metadata(&mut self)
        ensures
            stripped_node(*old(self), *final(self)),
    {
        self.version = 0;
        self.timestamp = 0;
        self.changeset = 0;
        self.uid = 0;
        self.user = String::new();
    }
}

impl Way {
    /// Clears version, timestamp, changeset, uid and user.
    pub fn remove_metadata(&mut self)
        ensures
            stripped_way(*old(self), *final(self)),
    {
        self.version = 0;
        self.timestamp = 0;
        self.changeset = 0;
        self.uid = 0;
        self.user = String::new();
    }
}

impl Relation {
    /// Clears version, timestamp, changeset, uid and user.
    pub fn remove_metadata(&mut self)
        ensures
            stripped_relation(*old(self), *final(self)),
    {
        self.version = 0;
        self.timestamp = 0;
        self.changeset = 0;
        self.uid = 0;
        self.user = String::new();
    }
}

/// Removes version, timestamp, changeset, uid and user from every element.
pub struct MetadataRemover {}

impl MetadataRemover {
    pub fn default() -> (m: Self) {
        MetadataRemover {}
    }

    /// Removes the metadata of the elements in flight; nothing else changes.
    pub fn strip(&self, data: &mut HandlerData)
        ensures
            all_stripped(old(data).nodes@, old(data).ways@, old(data).relations@, *final(data)),
            *final(data) == (HandlerData {
                nodes: final(data).nodes,
                ways: final(data).ways,
                relations: final(data).relations,
                ..*old(data)
            }),
    {
        let n = data.nodes.len();
        let mut i: usize = 0;
        while i < n
            invariant
                n == data.nodes@.len(),
                n == old(data).nodes@.len(),
                i <= n,
                *data == (HandlerData { nodes: data.nodes, ..*old(data) }),
                forall|j: int| i <= j < n ==> #[trigger] data.nodes@[j] == old(data).nodes@[j],
                forall|j: int| 0 <= j < i ==> stripped_node(old(data).nodes@[j], #[trigger] data.nodes@[j]),
            decreases n - i,
        {
            data.nodes[i].remove_metadata();
            i = i + 1;
        }
        let n = data.ways.len();
        let mut i: usize = 0;
        while i < n
            invariant
                n == data.ways@.len(),
                n == old(data).ways@.len(),
                i <= n,
                *data == (HandlerData { nodes: data.nodes, ways: data.ways, ..*old(data) }),
                data.nodes@.len() == old(data).nodes@.len(),
                forall|j: int| 0 <= j < data.nodes@.len() ==> stripped_node(old(data).nodes@[j], #[trigger] data.nodes@[j]),
                forall|j: int| i <= j < n ==> #[trigger] data.ways@[j] == old(data).ways@[j],
                forall|j: int| 0 <= j < i ==> stripped_way(old(data).ways@[j], #[trigger] data.ways@[j]),
            decreases n - i,
        {
            data.ways[i].remove_metadata();
            i = i + 1;
        }
        let n = data.relations.len();
        let mut i: usize = 0;
        while i < n
            invariant
                n == data.relations@.len(),
                n == old(data).relations@.len(),
                i <= n,
                *data == (HandlerData { nodes: data.nodes, ways: data.ways, relations: data.relations, ..*old(data) }),
                data.nodes@.len() == old(data).nodes@.len(),
                data.ways@.len() == old(data).ways@.len(),
                forall|j: int| 0 <= j < data.nodes@.len() ==> stripped_node(old(data).nodes@[j], #[trigger] data.nodes@[j]),
                forall|j: int| 0 <= j < data.ways@.len() ==> stripped_way(old(data).ways@[j], #[trigger] data.ways@[j]),
                forall|j: int| i <= j < n ==> #[trigger] data.relations@[j] == old(data).relations@[j],
                forall|j: int| 0 <= j < i ==> stripped_relation(old(data).relations@[j], #[trigger] data.relations@[j]),
            decreases n - i,
        {
            data.relations[i].remove_metadata();
            i = i + 1;
        }
    }
}

impl Handler for MetadataRemover {
    open spec fn handled(&self, before: HandlerData, after: HandlerData) -> bool {
        &&& all_stripped(before.nodes@, before.ways@, before.relations@, after)
        &&& after == (HandlerData {
                nodes: after.nodes,
                ways: after.ways,
                relations: after.relations,
                ..before
            })
    }

    open spec fn flushed(&self, before: HandlerData, after: HandlerData) -> bool {
        self.handled(before, after)
    }

    open spec fn handled_after_flush(&self, flushed: HandlerData, before: HandlerData, after: HandlerData) -> bool {
        self.handled(before, after)
    }

    open spec fn handled_after_handle(&self, handled: HandlerData, before: HandlerData, after: HandlerData) -> bool {
        self.handled(before, after)
    }

    open spec fn handled_after_close(&self, closed: HandlerData, before: HandlerData, after: HandlerData) -> bool {
        self.handled(before, after)
    }

    open spec fn closed(&self, before: HandlerData, after: HandlerData) -> bool {
        after == before
    }

    fn name(&self) -> (s: String)
        ensures
            s@ == "MetadataRemover"@,
    {
        "MetadataRemover".to_owned()
    }

    fn handle(&mut self, data: &mut HandlerData)
        ensures
            all_stripped(old(data).nodes@, old(data).ways@, old(data).relations@, *final(data)),
            *final(data) == (HandlerData {
                nodes: final(data).nodes,
                ways: final(data).ways,
                relations: final(data).relations,
                ..*old(data)
            }),
    {
        self.strip(data)
    }

    /// Buffers nothing, so flushing is handling.
    fn flush(&mut self, data: &mut HandlerData) {
        self.handle(data)
    }

    /// Records nothing.
    fn close(&mut self, data: &mut HandlerData) {
    }
}

/// Removing metadata twice gives what removing it once gives.
pub proof fn lemma_strip_node_idempotent(n: Node, m: Node, m2: Node)
    requires
        stripped_node(n, m),
        stripped_node(m, m2),
    ensures
        stripped_node(n, m2),
{
}

/// Removing metadata twice gives what removing it once gives.
pub proof fn lemma_strip_way_idempotent(w: Way, m: Way, m2: Way)
    requires
        stripped_way(w, m),
        stripped_way(m, m2),
    ensures
        stripped_way(w, m2),
{
}

/// Removing metadata twice gives what removing it once gives.
pub proof fn lemma_strip_relation_idempotent(r: Relation, m: Relation, m2: Relation)
    requires
        stripped_relation(r, m),
        stripped_relation(m, m2),
    ensures
        stripped_relation(r, m2),
{
}

/// Removing metadata does not change what the routing filter keeps: of
/// ways that differ only by their metadata, it keeps as many, at the same
/// places, each one the stripped form of the other.
pub proof fn lemma_routing_filter_ignores_way_metadata(f: ComplexElementsFilter, ways: Seq<Way>, stripped: Seq<Way>)
    requires
        ways.len() == stripped.len(),
        forall|i: int| 0 <= i < ways.len() ==> stripped_way(ways[i], #[trigger] stripped[i]),
    ensures
        kept::<Way, ComplexElementsFilter>(f, stripped).len() == kept::<Way, ComplexElementsFilter>(f, ways).len(),
        forall|i: int| 0 <= i < kept::<Way, ComplexElementsFilter>(f, ways).len() ==> stripped_way(
            kept::<Way, ComplexElementsFilter>(f, ways)[i], #[trigger] kept::<Way, ComplexElementsFilter>(f, stripped)[i]),
    decreases ways.len(),
{
    if ways.len() > 0 {
        assert forall|i: int| 0 <= i < ways.drop_last().len() implies stripped_way(ways.drop_last()[i],
            #[trigger] stripped.drop_last()[i]) by {
            assert(stripped_way(ways[i], stripped[i]));
        }
        lemma_routing_filter_ignores_way_metadata(f, ways.drop_last(), stripped.drop_last());
        assert(stripped_way(ways.last(), stripped.last()));
        assert(ways.last().spec_tags() == stripped.last().spec_tags());
    }
}

/// Removing metadata does not change what the routing filter keeps of relations.
pub proof fn lemma_routing_filter_ignores_relation_metadata(
    f: ComplexElementsFilter,
    relations: Seq<Relation>,
    stripped: Seq<Relation>,
)
    requires
        relations.len() == stripped.len(),
        forall|i: int| 0 <= i < relations.len() ==> stripped_relation(relations[i], #[trigger] stripped[i]),
    ensures
        kept::<Relation, ComplexElementsFilter>(f, stripped).len() == kept::<Relation, ComplexElementsFilter>(
            f, relations).len(),
        forall|i: int| 0 <= i < kept::<Relation, ComplexElementsFilter>(f, relations).len() ==> stripped_relation(
            kept::<Relation, ComplexElementsFilter>(f, relations)[i],
            #[trigger] kept::<Relation, ComplexElementsFilter>(f, stripped)[i]),
    decreases relations.len(),
{
    if relations.len() > 0 {
        assert forall|i: int| 0 <= i < relations.drop_last().len() implies stripped_relation(relations.drop_last()[i],
            #[trigger] stripped.drop_last()[i]) by {
            assert(stripped_relation(relations[i], stripped[i]));
        }
        lemma_routing_filter_ignores_relation_metadata(f, relations.drop_last(), stripped.drop_last());
        assert(stripped_relation(relations.last(), stripped.last()));
        assert(relations.last().spec_tags() == stripped.last().spec_tags());
    }
}

} // verus!
