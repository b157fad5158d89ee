//! The data that flows through a chain of handlers, and the chain itself.

use vstd::prelude::*;
use bit_vec::BitVec;
use crate::bits::{bit_contents, bits_from_elem};
use crate::model::{Element, Node, Way, Relation};
use crate::strmap::StringMap;

verus! {

/// Highest node id the id bit sets are sized for.
pub const HIGHEST_NODE_ID: i64 = 50_000_000_000;
/// Highest way id the id bit sets are sized for.
pub const HIGHEST_WAY_ID: i64 = 10_000_000_000;
/// Highest relation id the id bit sets are sized for.
pub const HIGHEST_RELATION_ID: i64 = 50_000_000;

/// `c + n`, wrapping around at 2^64 as counters do in release builds.
pub open spec fn add_count(c: u64, n: nat) -> u64 {
    vstd::wrapping::u64_specs::wrapping_add(c, n as u64)
}

/// Elements in flight, intermediate id sets, and statistics of a run.
pub struct HandlerData {
    /// Elements to handle.
    pub nodes: Vec<Node>,
    pub ways: Vec<Way>,
    pub relations: Vec<Relation>,

    /// Intermediate filter results created by the handlers in the first pass
    /// and consumed by filters in the second pass.
    pub accept_node_ids: BitVec,
    pub accept_way_ids: BitVec,
    pub accept_relation_ids: BitVec,
    pub no_elevation_node_ids: BitVec,

    /// Input counts.
    pub input_node_count: u64,
    pub input_way_count: u64,
    pub input_relation_count: u64,

    /// Accepted counts.
    pub accepted_node_count: u64,
    pub accepted_way_count: u64,
    pub accepted_relation_count: u64,

    /// Output counts.
    pub output_node_count: u64,
    pub output_way_count: u64,
    pub output_relation_count: u64,

    /// Country mapping statistics.
    pub country_found_node_count: u64,
    pub multiple_country_found_node_count: u64,
    pub country_not_found_node_count: u64,

    /// Elevation enrichment statistics.
    pub elevation_found_node_count: u64,
    pub elevation_not_found_node_count: u64,
    pub elevation_not_relevant_node_count: u64,
    pub elevation_flush_count: u64,
    pub elevation_total_buffered_nodes_max_reached_count: u64,
    pub splitted_way_count: u64,
    pub elevation_tiff_count_total: u64,
    pub elevation_tiff_count_used: u64,

    /// Total processing time: whole seconds and the nanoseconds beyond them.
    pub total_processing_secs: u64,
    pub total_processing_subsec_nanos: u32,

    /// Other results, by name.
    pub other: StringMap,
}

impl HandlerData {
    /// No element is in flight.
    pub open spec fn no_elements(&self) -> bool {
        &&& self.nodes@.len() == 0
        &&& self.ways@.len() == 0
        &&& self.relations@.len() == 0
    }

    /// Every counter other than the input counts is zero, and no other result is stored.
    pub open spec fn non_input_counts_cleared(&self) -> bool {
        &&& self.accepted_node_count == 0
        &&& self.accepted_way_count == 0
        &&& self.accepted_relation_count == 0
        &&& self.output_node_count == 0
        &&& self.output_way_count == 0
        &&& self.output_relation_count == 0
        &&& self.country_found_node_count == 0
        &&& self.multiple_country_found_node_count == 0
        &&& self.country_not_found_node_count == 0
        &&& self.elevation_found_node_count == 0
        &&& self.elevation_not_found_node_count == 0
        &&& self.elevation_not_relevant_node_count == 0
        &&& self.elevation_flush_count == 0
        &&& self.elevation_total_buffered_nodes_max_reached_count == 0
        &&& self.splitted_way_count == 0
        &&& self.elevation_tiff_count_total == 0
        &&& self.elevation_tiff_count_used == 0
        &&& self.total_processing_secs == 0
        &&& self.total_processing_subsec_nanos == 0
        &&& self.other.view() == Map::<Seq<char>, Seq<char>>::empty()
    }

    /// Every counter is zero, and no other result is stored.
    pub open spec fn counts_cleared(&self) -> bool {
        &&& self.input_node_count == 0
        &&& self.input_way_count == 0
        &&& self.input_relation_count == 0
        &&& self.non_input_counts_cleared()
    }

    /// Data with bit sets sized for the highest ids of OSM.
    pub fn default() -> (d: Self)
        ensures
            d.no_elements(),
            d.counts_cleared(),
            bit_contents(d.accept_node_ids) == Seq::new((HIGHEST_NODE_ID as usize) as nat, |_i: int| false),
            bit_contents(d.accept_way_ids) == Seq::new((HIGHEST_WAY_ID as usize) as nat, |_i: int| false),
            bit_contents(d.accept_relation_ids) == Seq::new((HIGHEST_RELATION_ID as usize) as nat, |_i: int| false),
            bit_contents(d.no_elevation_node_ids) == Seq::new((HIGHEST_NODE_ID as usize) as nat, |_i: int| false),
    {
        Self::with_capacity(HIGHEST_NODE_ID as usize, HIGHEST_WAY_ID as usize, HIGHEST_RELATION_ID as usize)
    }

    /// Data with bit sets of the given sizes, all bits clear.
    pub fn with_capacity(nbits_node: usize, nbits_way: usize, nbits_relation: usize) -> (d: Self)
        ensures
            d.no_elements(),
            d.counts_cleared(),
            bit_contents(d.accept_node_ids) == Seq::new(nbits_node as nat, |_i: int| false),
            bit_contents(d.accept_way_ids) == Seq::new(nbits_way as nat, |_i: int| false),
            bit_contents(d.accept_relation_ids) == Seq::new(nbits_relation as nat, |_i: int| false),
            bit_contents(d.no_elevation_node_ids) == Seq::new(nbits_node as nat, |_i: int| false),
    {
        HandlerData {
            nodes: Vec::new(),
            ways: Vec::new(),
            relations: Vec::new(),
            accept_node_ids: bits_from_elem(nbits_node, false),
            accept_way_ids: bits_from_elem(nbits_way, false),
            accept_relation_ids: bits_from_elem(nbits_relation, false),
            no_elevation_node_ids: bits_from_elem(nbits_node, false),
            input_node_count: 0,
            input_way_count: 0,
            input_relation_count: 0,
            accepted_node_count: 0,
            accepted_way_count: 0,
            accepted_relation_count: 0,
            output_node_count: 0,
            output_way_count: 0,
            output_relation_count: 0,
            country_found_node_count: 0,
            multiple_country_found_node_count: 0,
            country_not_found_node_count: 0,
            elevation_found_node_count: 0,
            elevation_not_found_node_count: 0,
            elevation_not_relevant_node_count: 0,
            elevation_flush_count: 0,
            elevation_total_buffered_nodes_max_reached_count: 0,
            splitted_way_count: 0,
            elevation_tiff_count_total: 0,
            elevation_tiff_count_used: 0,
            total_processing_secs: 0,
            total_processing_subsec_nanos: 0,
            other: StringMap::new(),
        }
    }

    /// Removes the elements in flight; everything else stays.
    pub fn clear_elements(&mut self)
        ensures
            final(self).no_elements(),
            *final(self) == (HandlerData {
                nodes: final(self).nodes,
                ways: final(self).ways,
                relations: final(self).relations,
                ..*old(self)
            }),
    {
        self.nodes.clear();
        self.ways.clear();
        self.relations.clear();
    }

    /// Resets every counter and the other results; elements and bit sets stay.
    pub fn clear_counts(&mut self)
        ensures
            final(self).counts_cleared(),
            final(self).nodes == old(self).nodes,
            final(self).ways == old(self).ways,
            final(self).relations == old(self).relations,
            final(self).accept_node_ids == old(self).accept_node_ids,
            final(self).accept_way_ids == old(self).accept_way_ids,
            final(self).accept_relation_ids == old(self).accept_relation_ids,
            final(self).no_elevation_node_ids == old(self).no_elevation_node_ids,
    {
        self.input_node_count = 0;
        self.input_way_count = 0;
        self.input_relation_count = 0;
        self.clear_non_input_counts();
    }

    /// Resets every counter but the input counts, and the other results;
    /// elements, bit sets and input counts stay.
    pub fn clear_non_input_counts(&mut self)
        ensures
            final(self).non_input_counts_cleared(),
            final(self).input_node_count == old(self).input_node_count,
            final(self).input_way_count == old(self).input_way_count,
            final(self).input_relation_count == old(self).input_relation_count,
            final(self).nodes == old(self).nodes,
            final(self).ways == old(self).ways,
            final(self).relations == old(self).relations,
            final(self).accept_node_ids == old(self).accept_node_ids,
            final(self).accept_way_ids == old(self).accept_way_ids,
            final(self).accept_relation_ids == old(self).accept_relation_ids,
            final(self).no_elevation_node_ids == old(self).no_elevation_node_ids,
    {
        self.accepted_node_count = 0;
        self.accepted_way_count = 0;
        self.accepted_relation_count = 0;
        self.country_not_found_node_count = 0;
        self.country_found_node_count = 0;
        self.elevation_found_node_count = 0;
        self.elevation_not_found_node_count = 0;
        self.elevation_not_relevant_node_count = 0;
        self.splitted_way_count = 0;
        self.output_node_count = 0;
        self.output_way_count = 0;
        self.output_relation_count = 0;
        self.elevation_tiff_count_total = 0;
        self.elevation_tiff_count_used = 0;
        self.elevation_flush_count = 0;
        self.elevation_total_buffered_nodes_max_reached_count = 0;
        self.multiple_country_found_node_count = 0;
        self.total_processing_secs = 0;
        self.total_processing_subsec_nanos = 0;
        self.other.clear();
    }

    /// The number of elements read.
    pub fn input_element_count(&self) -> (n: u64)
        requires
            self.input_node_count + self.input_way_count + self.input_relation_count <= u64::MAX,
        ensures
            n == self.input_node_count + self.input_way_count + self.input_relation_count,
    {
        self.input_node_count + self.input_way_count + self.input_relation_count
    }
}

/// A step of a processing chain. It sees the elements in flight in
/// `HandlerData` and may change, remove or add elements, or record results.
///
/// Each handler says, as a relation between the data before and after, what
/// handling, flushing and closing do; the chain's contracts are stated over
/// these relations. A handler that buffers nothing flushes by handling, and
/// one that records nothing closes by leaving the data alone.
pub trait Handler {
    /// What `handle` does to the data, for this handler as it is before the
    /// call. A handler that does not state it claims nothing.
    closed spec fn handled(&self, before: HandlerData, after: HandlerData) -> bool {
        true
    }

    /// What `flush` does to the data, for this handler as it is before the
    /// call. A handler that does not state it claims nothing.
    closed spec fn flushed(&self, before: HandlerData, after: HandlerData) -> bool {
        true
    }

    /// What `handle` does to the data once this handler has flushed, `flushed`
    /// being the data it saw when it flushed. A handler that does not state
    /// it claims nothing.
    closed spec fn handled_after_flush(&self, flushed: HandlerData, before: HandlerData, after: HandlerData) -> bool {
        true
    }

    /// What `handle` does to the data once this handler has handled, `handled`
    /// being the data it saw then. A handler that does not state it claims
    /// nothing.
    closed spec fn handled_after_handle(&self, handled: HandlerData, before: HandlerData, after: HandlerData) -> bool {
        true
    }

    /// What `handle` does to the data once this handler has closed, `closed`
    /// being the data it saw then. A handler that does not state it claims
    /// nothing.
    closed spec fn handled_after_close(&self, closed: HandlerData, before: HandlerData, after: HandlerData) -> bool {
        true
    }

    /// What `close` does to the data, for this handler as it is before the
    /// call. A handler that does not state it claims nothing.
    closed spec fn closed(&self, before: HandlerData, after: HandlerData) -> bool {
        true
    }

    fn name(&self) -> String;

    /// Handles the elements in flight.
    fn handle(&mut self, data: &mut HandlerData)
        ensures
            old(self).handled(*old(data), *final(data)),
            forall|before: HandlerData, after: HandlerData| #[trigger] final(self).handled(before, after)
                == old(self).handled_after_handle(*old(data), before, after),
    ;

    /// Handles the elements in flight and passes on whatever it buffered.
    fn flush(&mut self, data: &mut HandlerData)
        ensures
            old(self).flushed(*old(data), *final(data)),
            forall|before: HandlerData, after: HandlerData| #[trigger] final(self).handled(before, after)
                == old(self).handled_after_flush(*old(data), before, after),
    ;

    /// Records final results.
    fn close(&mut self, data: &mut HandlerData)
        ensures
            old(self).closed(*old(data), *final(data)),
            forall|before: HandlerData, after: HandlerData| #[trigger] final(self).handled(before, after)
                == old(self).handled_after_close(*old(data), before, after),
    ;
}

/// A sequence of handlers that each element passes through in order.
///
/// Before the first way, and again before the first relation, all handlers
/// are flushed, so that buffering handlers pass on what they hold before
/// elements of the next kind arrive.
pub struct HandlerChain {
    pub processors: Vec<Box<dyn Handler>>,
    first_node_received: bool,
    flushed_nodes: bool,
    flushed_ways: bool,
}

impl HandlerChain {
    /// The number of handlers.
    pub closed spec fn spec_len(&self) -> nat {
        self.processors@.len()
    }

    /// The handlers, in chain order.
    pub closed spec fn spec_processors(&self) -> Seq<Box<dyn Handler>> {
        self.processors@
    }

    /// Whether a node has been processed.
    pub closed spec fn spec_first_node_received(&self) -> bool {
        self.first_node_received
    }

    /// Whether the handlers were flushed before the first way.
    pub closed spec fn spec_flushed_nodes(&self) -> bool {
        self.flushed_nodes
    }

    /// Whether the handlers were flushed before the first relation.
    pub closed spec fn spec_flushed_ways(&self) -> bool {
        self.flushed_ways
    }

    /// A chain without handlers that has seen no element.
    pub fn default() -> (c: Self)
        ensures
            c.spec_len() == 0,
            !c.spec_first_node_received(),
            !c.spec_flushed_nodes(),
            !c.spec_flushed_ways(),
    {
        HandlerChain {
            processors: Vec::new(),
            first_node_received: false,
            flushed_nodes: false,
            flushed_ways: false,
        }
    }

    /// Appends a handler at the end of the chain.
    pub fn add(self, processor: Box<dyn Handler>) -> (c: Self)
        ensures
            c.spec_len() == self.spec_len() + 1,
            c.spec_processors() == self.spec_processors().push(processor),
            c.spec_first_node_received() == self.spec_first_node_received(),
            c.spec_flushed_nodes() == self.spec_flushed_nodes(),
            c.spec_flushed_ways() == self.spec_flushed_ways(),
    {
        let HandlerChain { processors, first_node_received, flushed_nodes, flushed_ways } = self;
        let mut processors = processors;
        let ghost a = processors@;
        processors.push(processor);
        proof {
            vstd::seq::axiom_seq_push_len(a, processor);
        }
        HandlerChain { processors, first_node_received, flushed_nodes, flushed_ways }
    }

    /// Passes one element through the chain. `data` is emptied; before the
    /// first way, and before the first relation, every handler is flushed in
    /// chain order; then `data` holds the element alone and every handler
    /// (as the flush left it, where there was one) handles it in chain order,
    /// each seeing what the one before left; at the end `data` is emptied
    /// again, and each place of the chain holds its handler as handling left
    /// it, so the next element meets the same handlers in the same order. A
    /// sentinel reaches no handler.
    pub fn process(&mut self, element: Element, data: &mut HandlerData)
        ensures
            final(self).spec_len() == old(self).spec_len(),
            final(data).no_elements(),
            final(self).spec_first_node_received() == (old(self).spec_first_node_received()
                || element is Node),
            final(self).spec_flushed_nodes() == (old(self).spec_flushed_nodes() || element is Way),
            final(self).spec_flushed_ways() == (old(self).spec_flushed_ways() || element is Relation),
            element is Sentinel ==> final(self).spec_processors() == old(self).spec_processors()
                && emptied(*old(data), *final(data)),
            flush_due(*old(self), element) ==> exists|ps: Seq<Box<dyn Handler>>, e0: HandlerData, e1: HandlerData,
                h0: HandlerData, h1: HandlerData| {
                &&& emptied(*old(data), e0)
                &&& #[trigger] flush_round(old(self).spec_processors(), ps, e0, e1)
                &&& holding(e1, element, h0)
                &&& #[trigger] handle_round(ps, final(self).spec_processors(), h0, h1)
                &&& emptied(h1, *final(data))
            },
            !(element is Sentinel) && !flush_due(*old(self), element) ==> exists|e0: HandlerData, h0: HandlerData,
                h1: HandlerData| {
                &&& emptied(*old(data), e0)
                &&& #[trigger] holding(e0, element, h0)
                &&& #[trigger] handle_round(old(self).spec_processors(), final(self).spec_processors(), h0, h1)
                &&& emptied(h1, *final(data))
            },
    {
        let ghost old_self = *self;
        data.clear_elements();
        let ghost e0 = *data;
        match element {
            Element::Node { .. } => {
                self.first_node_received = true;
            },
            Element::Way { .. } => {
                if !self.flushed_nodes {
                    self.flush_handlers(data);
                    self.flushed_nodes = true;
                }
            },
            Element::Relation { .. } => {
                if !self.flushed_ways {
                    self.flush_handlers(data);
                    self.flushed_ways = true;
                }
            },
            Element::Sentinel => {},
        }
        let ghost e1 = *data;
        assert(!flush_due(old_self, element) ==> e1 == e0 && self.processors@ == old_self.processors@);
        let ghost ps1 = self.processors@;
        self.pass_element(element, data);
        proof {
            if !(element is Sentinel) {
                let (h0, h1) = choose|h0: HandlerData, h1: HandlerData| {
                    &&& #[trigger] holding(e1, element, h0)
                    &&& #[trigger] handle_round(ps1, self.processors@, h0, h1)
                    &&& emptied(h1, *data)
                };
                assert(self.spec_processors() == self.processors@);
                if flush_due(old_self, element) {
                    assert(flush_round(old_self.spec_processors(), ps1, e0, e1));
                    assert(handle_round(ps1, self.spec_processors(), h0, h1));
                } else {
                    assert(holding(e0, element, h0));
                    assert(handle_round(old_self.spec_processors(), self.spec_processors(), h0, h1));
                }
            }
        }
    }

    /// Puts `element` alone into the emptied `data`, lets every handler handle
    /// it in chain order, and empties `data` again; a sentinel reaches no handler.
    fn pass_element(&mut self, element: Element, data: &mut HandlerData)
        requires
            old(data).no_elements(),
        ensures
            final(self).processors@.len() == old(self).processors@.len(),
            final(self).first_node_received == old(self).first_node_received,
            final(self).flushed_nodes == old(self).flushed_nodes,
            final(self).flushed_ways == old(self).flushed_ways,
            element is Sentinel ==> *final(self) == *old(self) && emptied(*old(data), *final(data)),
            !(element is Sentinel) ==> exists|h0: HandlerData, h1: HandlerData| {
                &&& #[trigger] holding(*old(data), element, h0)
                &&& #[trigger] handle_round(old(self).processors@, final(self).processors@, h0, h1)
                &&& emptied(h1, *final(data))
            },
    {
        match element {
            Element::Node { node } => {
                data.nodes.push(node);
                let ghost h0 = *data;
                assert(data.nodes@ =~= seq![node]);
                self.handle_element(data);
                let ghost h1 = *data;
                data.clear_elements();
                assert(holding(*old(data), element, h0));
                assert(handle_round(old(self).processors@, self.processors@, h0, h1));
            },
            Element::Way { way } => {
                data.ways.push(way);
                let ghost h0 = *data;
                assert(data.ways@ =~= seq![way]);
                self.handle_element(data);
                let ghost h1 = *data;
                data.clear_elements();
                assert(holding(*old(data), element, h0));
                assert(handle_round(old(self).processors@, self.processors@, h0, h1));
            },
            Element::Relation { relation } => {
                data.relations.push(relation);
                let ghost h0 = *data;
                assert(data.relations@ =~= seq![relation]);
                self.handle_element(data);
                let ghost h1 = *data;
                data.clear_elements();
                assert(holding(*old(data), element, h0));
                assert(handle_round(old(self).processors@, self.processors@, h0, h1));
            },
            Element::Sentinel => {
                data.clear_elements();
            },
        }
    }

    /// Lets every handler handle the elements in flight, in chain order.
    fn handle_element(&mut self, data: &mut HandlerData)
        ensures
            final(self).processors@.len() == old(self).processors@.len(),
            final(self).first_node_received == old(self).first_node_received,
            final(self).flushed_nodes == old(self).flushed_nodes,
            final(self).flushed_ways == old(self).flushed_ways,
            handle_round(old(self).processors@, final(self).processors@, *old(data), *final(data)),
    {
        let ghost ps = self.processors@;
        let ghost d0 = *data;
        let ghost mut ds: Seq<HandlerData> = seq![*data];
        let n = self.processors.len();
        let mut i: usize = 0;
        while i < n
            invariant
                n == self.processors@.len(),
                n == ps.len(),
                i <= n,
                self.first_node_received == old(self).first_node_received,
                self.flushed_nodes == old(self).flushed_nodes,
                self.flushed_ways == old(self).flushed_ways,
                forall|j: int| i <= j < n ==> self.processors@[j] == ps[j],
                ds.len() == i + 1,
                ds[0] == d0,
                ds[i as int] == *data,
                forall|j: int| 0 <= j < i ==> #[trigger] ps[j].handled(ds[j], ds[j + 1]),
                forall|j: int, before: HandlerData, after: HandlerData| 0 <= j < i
                    ==> #[trigger] self.processors@[j].handled(before, after)
                        == ps[j].handled_after_handle(ds[j], before, after),
            decreases n - i,
        {
            self.processors[i].handle(data);
            proof {
                ds = ds.push(*data);
            }
            i = i + 1;
        }
        assert(handled_in_turn(ps, ds));
        assert(left_by_handle(ps, ds, self.processors@));
    }

    /// Flushes every handler in chain order, each seeing what the one before
    /// left; `data` holds no element afterwards.
    pub fn flush_handlers(&mut self, data: &mut HandlerData)
        ensures
            final(self).spec_len() == old(self).spec_len(),
            final(self).spec_first_node_received() == old(self).spec_first_node_received(),
            final(self).spec_flushed_nodes() == old(self).spec_flushed_nodes(),
            final(self).spec_flushed_ways() == old(self).spec_flushed_ways(),
            final(data).no_elements(),
            flush_round(old(self).spec_processors(), final(self).spec_processors(), *old(data), *final(data)),
    {
        let ghost ps = self.processors@;
        let ghost d0 = *data;
        let ghost mut ds: Seq<HandlerData> = seq![*data];
        let n = self.processors.len();
        let mut i: usize = 0;
        while i < n
            invariant
                n == self.processors@.len(),
                n == ps.len(),
                i <= n,
                self.first_node_received == old(self).first_node_received,
                self.flushed_nodes == old(self).flushed_nodes,
                self.flushed_ways == old(self).flushed_ways,
                forall|j: int| i <= j < n ==> self.processors@[j] == ps[j],
                ds.len() == i + 1,
                ds[0] == d0,
                ds[i as int] == *data,
                forall|j: int| 0 <= j < i ==> #[trigger] ps[j].flushed(ds[j], ds[j + 1]),
                forall|j: int, before: HandlerData, after: HandlerData| 0 <= j < i
                    ==> #[trigger] self.processors@[j].handled(before, after)
                        == ps[j].handled_after_flush(ds[j], before, after),
            decreases n - i,
        {
            self.processors[i].flush(data);
            proof {
                ds = ds.push(*data);
            }
            i = i + 1;
        }
        data.clear_elements();
        assert(flushed_in_turn(ps, ds));
        assert(left_by_flush(ps, ds, self.processors@));
    }

    /// Lets every handler record its final results, in chain order, each
    /// seeing what the one before left.
    pub fn close_handlers(&mut self, data: &mut HandlerData)
        ensures
            final(self).spec_len() == old(self).spec_len(),
            final(self).spec_first_node_received() == old(self).spec_first_node_received(),
            final(self).spec_flushed_nodes() == old(self).spec_flushed_nodes(),
            final(self).spec_flushed_ways() == old(self).spec_flushed_ways(),
            close_round(old(self).spec_processors(), final(self).spec_processors(), *old(data), *final(data)),
    {
        let ghost ps = self.processors@;
        let ghost d0 = *data;
        let ghost mut ds: Seq<HandlerData> = seq![*data];
        let n = self.processors.len();
        let mut i: usize = 0;
        while i < n
            invariant
                n == self.processors@.len(),
                n == ps.len(),
                i <= n,
                self.first_node_received == old(self).first_node_received,
                self.flushed_nodes == old(self).flushed_nodes,
                self.flushed_ways == old(self).flushed_ways,
                forall|j: int| i <= j < n ==> self.processors@[j] == ps[j],
                ds.len() == i + 1,
                ds[0] == d0,
                ds[i as int] == *data,
                forall|j: int| 0 <= j < i ==> #[trigger] ps[j].closed(ds[j], ds[j + 1]),
                forall|j: int, before: HandlerData, after: HandlerData| 0 <= j < i
                    ==> #[trigger] self.processors@[j].handled(before, after)
                        == ps[j].handled_after_close(ds[j], before, after),
            decreases n - i,
        {
            self.processors[i].close(data);
            proof {
                ds = ds.push(*data);
            }
            i = i + 1;
        }
        assert(closed_in_turn(ps, ds));
        assert(left_by_close(ps, ds, self.processors@));
    }
}

/// `d` holds no element and is `base` otherwise.
pub open spec fn emptied(base: HandlerData, d: HandlerData) -> bool {
    &&& d.no_elements()
    &&& d == (HandlerData { nodes: d.nodes, ways: d.ways, relations: d.relations, ..base })
}

/// `d` holds the element `e` alone and is `base` otherwise.
pub open spec fn holding(base: HandlerData, e: Element, d: HandlerData) -> bool {
    &&& d == (HandlerData { nodes: d.nodes, ways: d.ways, relations: d.relations, ..base })
    &&& match e {
        Element::Node { node } => d.nodes@ == seq![node] && d.ways@.len() == 0 && d.relations@.len() == 0,
        Element::Way { way } => d.nodes@.len() == 0 && d.ways@ == seq![way] && d.relations@.len() == 0,
        Element::Relation { relation } => d.nodes@.len() == 0 && d.ways@.len() == 0
            && d.relations@ == seq![relation],
        Element::Sentinel => d.no_elements(),
    }
}

/// Whether `e` is the first way or the first relation that `c` sees, so that
/// the handlers are flushed before it.
pub open spec fn flush_due(c: HandlerChain, e: Element) -> bool {
    (e is Way && !c.spec_flushed_nodes()) || (e is Relation && !c.spec_flushed_ways())
}

/// `ds` are the data before and after each handler of `ps` handles it, in turn.
pub open spec fn handled_in_turn(ps: Seq<Box<dyn Handler>>, ds: Seq<HandlerData>) -> bool {
    &&& ds.len() == ps.len() + 1
    &&& forall|i: int| 0 <= i < ps.len() ==> #[trigger] ps[i].handled(ds[i], ds[i + 1])
}

/// `ds` are the data before and after each handler of `ps` flushes, in turn.
pub open spec fn flushed_in_turn(ps: Seq<Box<dyn Handler>>, ds: Seq<HandlerData>) -> bool {
    &&& ds.len() == ps.len() + 1
    &&& forall|i: int| 0 <= i < ps.len() ==> #[trigger] ps[i].flushed(ds[i], ds[i + 1])
}

/// `ds` are the data before and after each handler of `ps` closes, in turn.
pub open spec fn closed_in_turn(ps: Seq<Box<dyn Handler>>, ds: Seq<HandlerData>) -> bool {
    &&& ds.len() == ps.len() + 1
    &&& forall|i: int| 0 <= i < ps.len() ==> #[trigger] ps[i].closed(ds[i], ds[i + 1])
}

/// `qs` are the handlers of `ps` as handling left them, position by position,
/// `ds[i]` being the data handler `i` saw when it handled: each handles as its
/// own `handled_after_handle` says.
pub open spec fn left_by_handle(ps: Seq<Box<dyn Handler>>, ds: Seq<HandlerData>, qs: Seq<Box<dyn Handler>>) -> bool {
    &&& qs.len() == ps.len()
    &&& forall|i: int, before: HandlerData, after: HandlerData| 0 <= i < ps.len()
        ==> #[trigger] qs[i].handled(before, after) == ps[i].handled_after_handle(ds[i], before, after)
}

/// The handlers of `ps`, handling in chain order, take `before` to `after`,
/// and are left as the handlers of `qs`.
pub open spec fn handle_round(ps: Seq<Box<dyn Handler>>, qs: Seq<Box<dyn Handler>>, before: HandlerData,
    after: HandlerData) -> bool {
    exists|ds: Seq<HandlerData>| #[trigger] handled_in_turn(ps, ds) && ds[0] == before && ds.last() == after
        && left_by_handle(ps, ds, qs)
}

/// `qs` are the handlers of `ps` as flushing left them, position by position,
/// `ds[i]` being the data handler `i` saw when it flushed: each handles as its
/// own `handled_after_flush` says.
pub open spec fn left_by_flush(ps: Seq<Box<dyn Handler>>, ds: Seq<HandlerData>, qs: Seq<Box<dyn Handler>>) -> bool {
    &&& qs.len() == ps.len()
    &&& forall|i: int, before: HandlerData, after: HandlerData| 0 <= i < ps.len()
        ==> #[trigger] qs[i].handled(before, after) == ps[i].handled_after_flush(ds[i], before, after)
}

/// The handlers of `ps`, flushing in chain order, take `before` to data that
/// `after` is, once emptied, and are left as the handlers of `qs`.
pub open spec fn flush_round(ps: Seq<Box<dyn Handler>>, qs: Seq<Box<dyn Handler>>, before: HandlerData,
    after: HandlerData) -> bool {
    exists|ds: Seq<HandlerData>| #[trigger] flushed_in_turn(ps, ds) && ds[0] == before && emptied(ds.last(), after)
        && left_by_flush(ps, ds, qs)
}

/// `qs` are the handlers of `ps` as closing left them, position by position,
/// `ds[i]` being the data handler `i` saw when it closed: each handles as its
/// own `handled_after_close` says.
pub open spec fn left_by_close(ps: Seq<Box<dyn Handler>>, ds: Seq<HandlerData>, qs: Seq<Box<dyn Handler>>) -> bool {
    &&& qs.len() == ps.len()
    &&& forall|i: int, before: HandlerData, after: HandlerData| 0 <= i < ps.len()
        ==> #[trigger] qs[i].handled(before, after) == ps[i].handled_after_close(ds[i], before, after)
}

/// The handlers of `ps`, closing in chain order, take `before` to `after`,
/// and are left as the handlers of `qs`.
pub open spec fn close_round(ps: Seq<Box<dyn Handler>>, qs: Seq<Box<dyn Handler>>, before: HandlerData,
    after: HandlerData) -> bool {
    exists|ds: Seq<HandlerData>| #[trigger] closed_in_turn(ps, ds) && ds[0] == before && ds.last() == after
        && left_by_close(ps, ds, qs)
}

} // verus!
