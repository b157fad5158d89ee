//! Handlers that count elements or describe selected elements.

use vstd::prelude::*;
use std::collections::HashSet;
use crate::handler::{Handler, HandlerData, add_count};
use crate::model::{Node, Way, Relation};
use crate::selection::OsmElementTypeSelection;
use crate::text::{push_char, signed_dec, pad_left, i64_to_string, pad_left_string};
use crate::describe::{node_text, way_text, relation_text, describe_node, describe_way, describe_relation};

verus! {

/// The statistics an `ElementCounter` adds its counts to.
pub enum ElementCountResultType {
    InputCount,
    AcceptedCount,
    OutputCount,
}

/// The name of a result type.
pub open spec fn result_type_name(t: ElementCountResultType) -> Seq<char> {
    match t {
        ElementCountResultType::InputCount => "InputCount"@,
        ElementCountResultType::AcceptedCount => "AcceptedCount"@,
        ElementCountResultType::OutputCount => "OutputCount"@,
    }
}

impl ElementCountResultType {
    pub fn name(&self) -> (s: String)
        ensures
            s@ == result_type_name(*self),
    {
        match self {
            ElementCountResultType::InputCount => {
                let s = "InputCount";
                proof { reveal_strlit("InputCount"); }
                s.to_owned()
            },
            ElementCountResultType::AcceptedCount => {
                let s = "AcceptedCount";
                proof { reveal_strlit("AcceptedCount"); }
                s.to_owned()
            },
            ElementCountResultType::OutputCount => {
                let s = "OutputCount";
                proof { reveal_strlit("OutputCount"); }
                s.to_owned()
            },
        }
    }

    pub fn copy(&self) -> (t: Self)
        ensures
            t == *self,
    {
        match self {
            ElementCountResultType::InputCount => ElementCountResultType::InputCount,
            ElementCountResultType::AcceptedCount => ElementCountResultType::AcceptedCount,
            ElementCountResultType::OutputCount => ElementCountResultType::OutputCount,
        }
    }
}

/// Counts the elements that pass it, and adds them to one group of the run's statistics.
pub struct ElementCounter {
    pub nodes_count: u64,
    pub ways_count: u64,
    pub relations_count: u64,
    pub result_type: ElementCountResultType,
    pub result_key: String,
}

/// `data` after adding `n`, `w`, `r` counted nodes, ways and relations to the group `t`.
pub open spec fn counted(data: HandlerData, t: ElementCountResultType, n: nat, w: nat, r: nat) -> HandlerData {
    match t {
        ElementCountResultType::InputCount => HandlerData {
            input_node_count: add_count(data.input_node_count, n),
            input_way_count: add_count(data.input_way_count, w),
            input_relation_count: add_count(data.input_relation_count, r),
            ..data
        },
        ElementCountResultType::AcceptedCount => HandlerData {
            accepted_node_count: add_count(data.accepted_node_count, n),
            accepted_way_count: add_count(data.accepted_way_count, w),
            accepted_relation_count: add_count(data.accepted_relation_count, r),
            ..data
        },
        ElementCountResultType::OutputCount => HandlerData {
            output_node_count: add_count(data.output_node_count, n),
            output_way_count: add_count(data.output_way_count, w),
            output_relation_count: add_count(data.output_relation_count, r),
            ..data
        },
    }
}

impl ElementCounter {
    /// A counter at zero, keyed by the name of its result type.
    pub fn new(result_type: ElementCountResultType) -> (c: Self)
        ensures
            c.nodes_count == 0,
            c.ways_count == 0,
            c.relations_count == 0,
            c.result_type == result_type,
            c.result_key@ == result_type_name(result_type),
    {
        let result_key = result_type.name();
        Self { nodes_count: 0, ways_count: 0, relations_count: 0, result_type, result_key }
    }

    /// A counter at zero whose key is prefixed by its position, zero-padded to two digits.
    pub fn with_index(index: i32, result_type: ElementCountResultType) -> (c: Self)
        ensures
            c.nodes_count == 0,
            c.ways_count == 0,
            c.relations_count == 0,
            c.result_type == result_type,
            c.result_key@ == pad_left(signed_dec(index as int), 2, '0') + seq![' '] + result_type_name(result_type),
    {
        let number = i64_to_string(index as i64);
        let mut result_key = pad_left_string(number.as_str(), 2, '0');
        push_char(&mut result_key, ' ');
        let name = result_type.name();
        result_key.append(name.as_str());
        Self { nodes_count: 0, ways_count: 0, relations_count: 0, result_type, result_key }
    }

    /// Counts the elements in flight and adds them to the statistics of `data`.
    pub fn count(&mut self, data: &mut HandlerData)
        ensures
            final(self).nodes_count == add_count(old(self).nodes_count, old(data).nodes@.len()),
            final(self).ways_count == add_count(old(self).ways_count, old(data).ways@.len()),
            final(self).relations_count == add_count(old(self).relations_count, old(data).relations@.len()),
            final(self).result_type == old(self).result_type,
            final(self).result_key == old(self).result_key,
            *final(data) == counted(*old(data), old(self).result_type, old(data).nodes@.len(),
                old(data).ways@.len(), old(data).relations@.len()),
    {
        let n = data.nodes.len() as u64;
        let w = data.ways.len() as u64;
        let r = data.relations.len() as u64;
        self.nodes_count = self.nodes_count.wrapping_add(n);
        self.ways_count = self.ways_count.wrapping_add(w);
        self.relations_count = self.relations_count.wrapping_add(r);
        match self.result_type {
            ElementCountResultType::InputCount => {
                data.input_node_count = data.input_node_count.wrapping_add(n);
                data.input_way_count = data.input_way_count.wrapping_add(w);
                data.input_relation_count = data.input_relation_count.wrapping_add(r);
            },
            ElementCountResultType::AcceptedCount => {
                data.accepted_node_count = data.accepted_node_count.wrapping_add(n);
                data.accepted_way_count = data.accepted_way_count.wrapping_add(w);
                data.accepted_relation_count = data.accepted_relation_count.wrapping_add(r);
            },
            ElementCountResultType::OutputCount => {
                data.output_node_count = data.output_node_count.wrapping_add(n);
                data.output_way_count = data.output_way_count.wrapping_add(w);
                data.output_relation_count = data.output_relation_count.wrapping_add(r);
            },
        }
    }

    /// "ElementCounter " followed by the key.
    pub fn counter_name(&self) -> (s: String)
        ensures
            s@ == "ElementCounter "@ + self.result_key@,
    {
        let mut s = "ElementCounter ".to_owned();
        proof { reveal_strlit("ElementCounter "); }
        s.append(self.result_key.as_str());
        s
    }
}

impl Handler for ElementCounter {
    open spec fn handled(&self, before: HandlerData, after: HandlerData) -> bool {
        &&& after == counted(before, self.result_type, before.nodes@.len(),
                before.ways@.len(), before.relations@.len())
    }

    open spec fn flushed(&self, before: HandlerData, after: HandlerData) -> bool {
        self.handled(before, after)
    }

    open spec fn handled_after_flush(&self, flushed: HandlerData, before: HandlerData, after: HandlerData) -> bool {
        self.handled(before, after)
    }

    open spec fn handled_after_handle(&self, handled: HandlerData, before: HandlerData, after: HandlerData) -> bool {
        self.handled(before, after)
    }

    open spec fn handled_after_close(&self, closed: HandlerData, before: HandlerData, after: HandlerData) -> bool {
        self.handled(before, after)
    }

    open spec fn closed(&self, before: HandlerData, after: HandlerData) -> bool {
        after == before
    }

    fn name(&self) -> (s: String)
        ensures
            s@ == "ElementCounter "@ + self.result_key@,
    {
        self.counter_name()
    }

    fn handle(&mut self, data: &mut HandlerData)
        ensures
            final(self).nodes_count == add_count(old(self).nodes_count, old(data).nodes@.len()),
            final(self).ways_count == add_count(old(self).ways_count, old(data).ways@.len()),
            final(self).relations_count == add_count(old(self).relations_count, old(data).relations@.len()),
            final(self).result_type == old(self).result_type,
            final(self).result_key == old(self).result_key,
            *final(data) == counted(*old(data), old(self).result_type, old(data).nodes@.len(),
                old(data).ways@.len(), old(data).relations@.len()),
    {
        self.count(data)
    }

    /// Buffers nothing, so flushing is handling.
    fn flush(&mut self, data: &mut HandlerData) {
        self.handle(data)
    }

    /// Records nothing.
    fn close(&mut self, data: &mut HandlerData) {
    }
}

/// Describes the nodes, ways and relations with selected ids.
pub struct ElementPrinter {
    pub prefix: String,
    pub node_ids: HashSet<i64>,
    pub way_ids: HashSet<i64>,
    pub relation_ids: HashSet<i64>,
    pub handle_types: OsmElementTypeSelection,
    /// Descriptions waiting to be shown, oldest first.
    pub printed: Vec<String>,
}

/// The descriptions of the nodes of `nodes` that `p` selects, in order.
pub open spec fn node_texts(p: ElementPrinter, nodes: Seq<Node>) -> Seq<Seq<char>>
    decreases nodes.len(),
{
    if nodes.len() == 0 {
        Seq::empty()
    } else {
        let r = node_texts(p, nodes.drop_last());
        let n = nodes.last();
        if p.handle_types.node && p.node_ids@.contains(n.id) { r.push(node_text(p.prefix@, n)) } else { r }
    }
}

/// The descriptions of the ways of `ways` that `p` selects, in order.
pub open spec fn way_texts(p: ElementPrinter, ways: Seq<Way>) -> Seq<Seq<char>>
    decreases ways.len(),
{
    if ways.len() == 0 {
        Seq::empty()
    } else {
        let r = way_texts(p, ways.drop_last());
        let w = ways.last();
        if p.handle_types.way && p.way_ids@.contains(w.id) { r.push(way_text(p.prefix@, w)) } else { r }
    }
}

/// The descriptions of the relations of `relations` that `p` selects, in order.
pub open spec fn relation_texts(p: ElementPrinter, relations: Seq<Relation>) -> Seq<Seq<char>>
    decreases relations.len(),
{
    if relations.len() == 0 {
        Seq::empty()
    } else {
        let r = relation_texts(p, relations.drop_last());
        let x = relations.last();
        if p.handle_types.relation && p.relation_ids@.contains(x.id) { r.push(relation_text(p.prefix@, x)) } else { r }
    }
}

/// The texts of a list of strings.
pub open spec fn texts(v: Seq<String>) -> Seq<Seq<char>> {
    v.map_values(|s: String| s@)
}

/// Adds every id of `ids` to `set`; returns whether `ids` held any id.
fn insert_all(set: &mut HashSet<i64>, ids: HashSet<i64>) -> (any: bool)
    ensures
        final(set)@ == old(set)@.union(ids@),
        any == (ids@.len() > 0),
{
    broadcast use vstd::std_specs::hash::group_hash_axioms;
    let mut any = false;
    for id in it: ids.iter()
        invariant
            set@ == old(set)@.union(it.seq().take(it.index()).unref().to_set()),
            any == (it.index() > 0),
            it.seq().unref().to_set() == ids@,
            it.seq().len() == ids@.len(),
            it.seq().take(it.seq().len() as int) =~= it.seq(),
        ensures
            set@ == old(set)@.union(ids@),
            any == (ids@.len() > 0),
    {
        assert(it.index() < it.seq().len());
        assert(*id == *it.seq()[it.index()]);
        set.insert(*id);
        any = true;
        assert(it.seq().take(it.index() + 1).unref() =~= it.seq().take(it.index()).unref().push(*id));
        proof {
            it.seq().take(it.index()).unref().lemma_push_to_set_commute(*id);
        }
    }
    any
}

impl ElementPrinter {
    /// A printer with the given prefix that selects nothing.
    pub fn with_prefix(prefix: String) -> (p: Self)
        ensures
            p.prefix@ == prefix@,
            p.node_ids@ == Set::<i64>::empty(),
            p.way_ids@ == Set::<i64>::empty(),
            p.relation_ids@ == Set::<i64>::empty(),
            !p.handle_types.node && !p.handle_types.way && !p.handle_types.relation,
            p.printed@.len() == 0,
    {
        Self {
            prefix,
            node_ids: HashSet::new(),
            way_ids: HashSet::new(),
            relation_ids: HashSet::new(),
            handle_types: OsmElementTypeSelection::none(),
            printed: Vec::new(),
        }
    }

    /// Also selects the nodes with the given ids.
    pub fn with_node_ids(self, node_ids: HashSet<i64>) -> (p: Self)
        ensures
            p.node_ids@ == self.node_ids@.union(node_ids@),
            p.handle_types.node == (self.handle_types.node || node_ids@.len() > 0),
            p.handle_types.way == self.handle_types.way,
            p.handle_types.relation == self.handle_types.relation,
            p.prefix == self.prefix,
            p.way_ids == self.way_ids,
            p.relation_ids == self.relation_ids,
            p.printed == self.printed,
    {
        let mut p = self;
        let any = insert_all(&mut p.node_ids, node_ids);
        if any {
            p.handle_types.node = true;
        }
        p
    }

    /// Also selects the ways with the given ids.
    pub fn with_way_ids(self, way_ids: HashSet<i64>) -> (p: Self)
        ensures
            p.way_ids@ == self.way_ids@.union(way_ids@),
            p.handle_types.way == (self.handle_types.way || way_ids@.len() > 0),
            p.handle_types.node == self.handle_types.node,
            p.handle_types.relation == self.handle_types.relation,
            p.prefix == self.prefix,
            p.node_ids == self.node_ids,
            p.relation_ids == self.relation_ids,
            p.printed == self.printed,
    {
        let mut p = self;
        let any = insert_all(&mut p.way_ids, way_ids);
        if any {
            p.handle_types.way = true;
        }
        p
    }

    /// Also selects the relations with the given ids.
    pub fn with_relation_ids(self, relation_ids: HashSet<i64>) -> (p: Self)
        ensures
            p.relation_ids@ == self.relation_ids@.union(relation_ids@),
            p.handle_types.relation == (self.handle_types.relation || relation_ids@.len() > 0),
            p.handle_types.node == self.handle_types.node,
            p.handle_types.way == self.handle_types.way,
            p.prefix == self.prefix,
            p.node_ids == self.node_ids,
            p.way_ids == self.way_ids,
            p.printed == self.printed,
    {
        let mut p = self;
        let any = insert_all(&mut p.relation_ids, relation_ids);
        if any {
            p.handle_types.relation = true;
        }
        p
    }

    /// Whether the node is described.
    pub fn selects_node(&self, node: &Node) -> (b: bool)
        ensures
            b == (self.handle_types.node && self.node_ids@.contains(node.id)),
    {
        broadcast use vstd::std_specs::hash::group_hash_axioms;
        self.handle_types.node && self.node_ids.contains(&node.id)
    }

    /// Whether the way is described.
    pub fn selects_way(&self, way: &Way) -> (b: bool)
        ensures
            b == (self.handle_types.way && self.way_ids@.contains(way.id)),
    {
        broadcast use vstd::std_specs::hash::group_hash_axioms;
        self.handle_types.way && self.way_ids.contains(&way.id)
    }

    /// Whether the relation is described.
    pub fn selects_relation(&self, relation: &Relation) -> (b: bool)
        ensures
            b == (self.handle_types.relation && self.relation_ids@.contains(relation.id)),
    {
        broadcast use vstd::std_specs::hash::group_hash_axioms;
        self.handle_types.relation && self.relation_ids.contains(&relation.id)
    }
}

impl ElementPrinter {
    /// Adds the descriptions of the selected elements in flight to `printed`:
    /// nodes first, then ways, then relations, each in their order.
    pub fn describe(&mut self, data: &HandlerData)
        ensures
            texts(final(self).printed@) == texts(old(self).printed@) + node_texts(*old(self), data.nodes@)
                + way_texts(*old(self), data.ways@) + relation_texts(*old(self), data.relations@),
            final(self).prefix == old(self).prefix,
            final(self).node_ids == old(self).node_ids,
            final(self).way_ids == old(self).way_ids,
            final(self).relation_ids == old(self).relation_ids,
            final(self).handle_types == old(self).handle_types,
    {
        let ghost p0 = *old(self);
        let n = data.nodes.len();
        let mut i: usize = 0;
        while i < n
            invariant
                n == data.nodes@.len(),
                i <= n,
                self.prefix == p0.prefix,
                self.node_ids == p0.node_ids,
                self.way_ids == p0.way_ids,
                self.relation_ids == p0.relation_ids,
                self.handle_types == p0.handle_types,
                texts(self.printed@) == texts(p0.printed@) + node_texts(p0, data.nodes@.take(i as int)),
            decreases n - i,
        {
            proof {
                assert(data.nodes@.take(i + 1).drop_last() =~= data.nodes@.take(i as int));
                assert(data.nodes@.take(i + 1).last() == data.nodes@[i as int]);
            }
            let ghost before = self.printed@;
            if self.selects_node(&data.nodes[i]) {
                let t = describe_node(self.prefix.as_str(), &data.nodes[i]);
                self.printed.push(t);
                assert(texts(self.printed@) =~= texts(before).push(t@));
            }
            i = i + 1;
        }
        assert(data.nodes@.take(n as int) =~= data.nodes@);
        let ghost after_nodes = self.printed@;
        let n = data.ways.len();
        let mut i: usize = 0;
        assert(way_texts(p0, data.ways@.take(0)) =~= Seq::<Seq<char>>::empty());
        while i < n
            invariant
                n == data.ways@.len(),
                i <= n,
                self.prefix == p0.prefix,
                self.node_ids == p0.node_ids,
                self.way_ids == p0.way_ids,
                self.relation_ids == p0.relation_ids,
                self.handle_types == p0.handle_types,
                texts(self.printed@) == texts(after_nodes) + way_texts(p0, data.ways@.take(i as int)),
            decreases n - i,
        {
            proof {
                assert(data.ways@.take(i + 1).drop_last() =~= data.ways@.take(i as int));
                assert(data.ways@.take(i + 1).last() == data.ways@[i as int]);
            }
            let ghost before = self.printed@;
            if self.selects_way(&data.ways[i]) {
                let t = describe_way(self.prefix.as_str(), &data.ways[i]);
                self.printed.push(t);
                assert(texts(self.printed@) =~= texts(before).push(t@));
            }
            i = i + 1;
        }
        assert(data.ways@.take(n as int) =~= data.ways@);
        let ghost after_ways = self.printed@;
        let n = data.relations.len();
        let mut i: usize = 0;
        assert(relation_texts(p0, data.relations@.take(0)) =~= Seq::<Seq<char>>::empty());
        while i < n
            invariant
                n == data.relations@.len(),
                i <= n,
                self.prefix == p0.prefix,
                self.node_ids == p0.node_ids,
                self.way_ids == p0.way_ids,
                self.relation_ids == p0.relation_ids,
                self.handle_types == p0.handle_types,
                texts(self.printed@) == texts(after_ways) + relation_texts(p0, data.relations@.take(i as int)),
            decreases n - i,
        {
            proof {
                assert(data.relations@.take(i + 1).drop_last() =~= data.relations@.take(i as int));
                assert(data.relations@.take(i + 1).last() == data.relations@[i as int]);
            }
            let ghost before = self.printed@;
            if self.selects_relation(&data.relations[i]) {
                let t = describe_relation(self.prefix.as_str(), &data.relations[i]);
                self.printed.push(t);
                assert(texts(self.printed@) =~= texts(before).push(t@));
            }
            i = i + 1;
        }
        assert(data.relations@.take(n as int) =~= data.relations@);
        assert(texts(self.printed@) =~= texts(p0.printed@) + node_texts(p0, data.nodes@)
            + way_texts(p0, data.ways@) + relation_texts(p0, data.relations@));
    }

    /// Hands out the waiting descriptions and forgets them.
    pub fn take_printed(&mut self) -> (v: Vec<String>)
        ensures
            v == old(self).printed,
            final(self).printed@.len() == 0,
            *final(self) == (ElementPrinter { printed: final(self).printed, ..*old(self) }),
    {
        let mut v: Vec<String> = Vec::new();
        std::mem::swap(&mut v, &mut self.printed);
        v
    }

    /// "ElementPrinter " followed by the prefix.
    pub fn printer_name(&self) -> (s: String)
        ensures
            s@ == "ElementPrinter "@ + self.prefix@,
    {
        let mut s = "ElementPrinter ".to_owned();
        s.append(self.prefix.as_str());
        s
    }
}

impl Handler for ElementPrinter {
    open spec fn handled(&self, before: HandlerData, after: HandlerData) -> bool {
        &&& after == before
    }

    open spec fn flushed(&self, before: HandlerData, after: HandlerData) -> bool {
        self.handled(before, after)
    }

    open spec fn handled_after_flush(&self, flushed: HandlerData, before: HandlerData, after: HandlerData) -> bool {
        self.handled(before, after)
    }

    open spec fn handled_after_handle(&self, handled: HandlerData, before: HandlerData, after: HandlerData) -> bool {
        self.handled(before, after)
    }

    open spec fn handled_after_close(&self, closed: HandlerData, before: HandlerData, after: HandlerData) -> bool {
        self.handled(before, after)
    }

    open spec fn closed(&self, before: HandlerData, after: HandlerData) -> bool {
        after == before
    }

    fn name(&self) -> (s: String)
        ensures
            s@ == "ElementPrinter "@ + self.prefix@,
    {
        self.printer_name()
    }

    /// Adds the descriptions of the selected elements in flight to `printed`;
    /// the data stays as it is.
    fn handle(&mut self, data: &mut HandlerData)
        ensures
            *final(data) == *old(data),
            texts(final(self).printed@) == texts(old(self).printed@) + node_texts(*old(self), old(data).nodes@)
                + way_texts(*old(self), old(data).ways@) + relation_texts(*old(self), old(data).relations@),
            final(self).prefix == old(self).prefix,
            final(self).node_ids == old(self).node_ids,
            final(self).way_ids == old(self).way_ids,
            final(self).relation_ids == old(self).relation_ids,
            final(self).handle_types == old(self).handle_types,
    {
        self.describe(data)
    }

    /// Buffers nothing, so flushing is handling.
    fn flush(&mut self, data: &mut HandlerData) {
        self.handle(data)
    }

    /// Records nothing.
    fn close(&mut self, data: &mut HandlerData) {
    }
}

/// Counting `n` nodes, `w` ways and `r` relations into a group adds the nodes
/// to that group's node count, the ways to its way count and the relations
/// to its relation count; the other groups, the elements in flight and the
/// other results stay as they are.
pub proof fn lemma_counting_adds_to_its_group(d: HandlerData, t: ElementCountResultType, n: nat, w: nat, r: nat)
    ensures
        ({
            let c = counted(d, t, n, w, r);
            &&& c.nodes == d.nodes && c.ways == d.ways && c.relations == d.relations && c.other == d.other
            &&& t is InputCount ==> {
                &&& c.input_node_count == add_count(d.input_node_count, n)
                &&& c.input_way_count == add_count(d.input_way_count, w)
                &&& c.input_relation_count == add_count(d.input_relation_count, r)
            }
            &&& t is AcceptedCount ==> {
                &&& c.accepted_node_count == add_count(d.accepted_node_count, n)
                &&& c.accepted_way_count == add_count(d.accepted_way_count, w)
                &&& c.accepted_relation_count == add_count(d.accepted_relation_count, r)
            }
            &&& t is OutputCount ==> {
                &&& c.output_node_count == add_count(d.output_node_count, n)
                &&& c.output_way_count == add_count(d.output_way_count, w)
                &&& c.output_relation_count == add_count(d.output_relation_count, r)
            }
            &&& !(t is InputCount) ==> c.input_node_count == d.input_node_count
                && c.input_way_count == d.input_way_count && c.input_relation_count == d.input_relation_count
            &&& !(t is AcceptedCount) ==> c.accepted_node_count == d.accepted_node_count
                && c.accepted_way_count == d.accepted_way_count
                && c.accepted_relation_count == d.accepted_relation_count
            &&& !(t is OutputCount) ==> c.output_node_count == d.output_node_count
                && c.output_way_count == d.output_way_count && c.output_relation_count == d.output_relation_count
        }),
{
}

/// A counter adds to its group exactly what it adds to its own counts: the
/// nodes, ways and relations in flight, each to its own kind.
pub proof fn lemma_counter_and_group_agree(d: HandlerData, t: ElementCountResultType, own: (u64, u64, u64))
    ensures
        ({
            let c = counted(d, t, d.nodes@.len(), d.ways@.len(), d.relations@.len());
            let grown = (add_count(own.0, d.nodes@.len()), add_count(own.1, d.ways@.len()),
                add_count(own.2, d.relations@.len()));
            &&& (own.0 == 0 && own.1 == 0 && own.2 == 0 && t is AcceptedCount && d.accepted_node_count == 0
                && d.accepted_way_count == 0 && d.accepted_relation_count == 0) ==>
                (c.accepted_node_count, c.accepted_way_count, c.accepted_relation_count) == grown
            &&& (own.0 == 0 && own.1 == 0 && own.2 == 0 && t is InputCount && d.input_node_count == 0
                && d.input_way_count == 0 && d.input_relation_count == 0) ==>
                (c.input_node_count, c.input_way_count, c.input_relation_count) == grown
            &&& (own.0 == 0 && own.1 == 0 && own.2 == 0 && t is OutputCount && d.output_node_count == 0
                && d.output_way_count == 0 && d.output_relation_count == 0) ==>
                (c.output_node_count, c.output_way_count, c.output_relation_count) == grown
        }),
{
}

} // verus!
