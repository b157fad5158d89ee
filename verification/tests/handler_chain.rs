use std::collections::HashSet;

use bit_vec::BitVec;
use rusty_routes_transformer::collect::ReferencedNodeIdCollector;
use rusty_routes_transformer::filter::{
    AllElementsFilter, ComplexElementsFilter, FilterType, IdFilter, TagKeyBasedOsmElementsFilter,
    TagValueBasedOsmElementsFilter,
};
use rusty_routes_transformer::handler::{Handler, HandlerChain, HandlerData};
use rusty_routes_transformer::info::{ElementCountResultType, ElementCounter, ElementPrinter};
use rusty_routes_transformer::model::{Element, Member, MemberData, Node, Relation, Tag, Way};
use rusty_routes_transformer::pattern::Pattern;
use rusty_routes_transformer::selection::OsmElementTypeSelection;

/// Id bits for the tests: enough for every id they use.
const TEST_ID_BITS: usize = 100_000;

fn tags_of(tags: Vec<(&str, &str)>) -> Vec<Tag> {
    tags.iter().map(|(k, v)| Tag::new(k.to_string(), v.to_string())).collect()
}

fn simple_node(id: i64, tags: Vec<(&str, &str)>) -> Node {
    Node::new(id, 1, 10_000_000, 11_000_000, 1, 1, 1, "a".to_string(), true, tags_of(tags))
}

fn simple_way(id: i64, refs: Vec<i64>, tags: Vec<(&str, &str)>) -> Way {
    Way::new(id, 1, 1, 1, 1, "a_user".to_string(), true, refs, tags_of(tags))
}

enum MemberType {
    Node,
    Way,
    Relation,
}

fn simple_relation(id: i64, members: Vec<(MemberType, i64, &str)>, tags: Vec<(&str, &str)>) -> Relation {
    let members = members
        .into_iter()
        .map(|(t, id, role)| match t {
            MemberType::Node => Member::Node { member: MemberData::new(id, role.to_string()) },
            MemberType::Way => Member::Way { member: MemberData::new(id, role.to_string()) },
            MemberType::Relation => Member::Relation { member: MemberData::new(id, role.to_string()) },
        })
        .collect();
    Relation::new(id, 1, 1, 1, 1, "a_user".to_string(), true, members, tags_of(tags))
}

fn simple_node_element(id: i64, tags: Vec<(&str, &str)>) -> Element {
    Element::Node { node: simple_node(id, tags) }
}

fn simple_way_element(id: i64, refs: Vec<i64>, tags: Vec<(&str, &str)>) -> Element {
    Element::Way { way: simple_way(id, refs, tags) }
}

fn simple_relation_element(id: i64, members: Vec<(MemberType, i64, &str)>, tags: Vec<(&str, &str)>) -> Element {
    Element::Relation { relation: simple_relation(id, members, tags) }
}

fn existing_tag() -> String {
    "EXISTING_TAG".to_string()
}

fn copy_node_with_new_id(node: &Node, new_id: i64) -> Node {
    Node::new(new_id, node.version, node.lat7, node.lon7, node.timestamp, node.changeset, node.uid,
        node.user.clone(), node.visible, node.tags.clone())
}

/// Adds a tag to nodes with an even id.
struct TestOnlyElementModifier;
impl Handler for TestOnlyElementModifier {
    fn name(&self) -> String {
        "TestOnlyElementModifier".to_string()
    }
    fn handle(&mut self, data: &mut HandlerData) {
        for node in data.nodes.iter_mut() {
            if node.id % 2 == 0 {
                node.tags.push(Tag::new("added".to_string(), "yes".to_string()));
            }
        }
    }
    fn flush(&mut self, data: &mut HandlerData) {
        self.handle(data)
    }

    fn close(&mut self, _data: &mut HandlerData) {}
}

/// Replaces node 6 by a new node 66.
struct TestOnlyElementReplacer;
impl Handler for TestOnlyElementReplacer {
    fn name(&self) -> String {
        "TestOnlyElementReplacer".to_string()
    }
    fn handle(&mut self, data: &mut HandlerData) {
        for index in 0..data.nodes.len() {
            if data.nodes[index].id == 6 {
                data.nodes[index] = simple_node(66, vec![("who", "dimpfelmoser")]);
            }
        }
    }
    fn flush(&mut self, data: &mut HandlerData) {
        self.handle(data)
    }

    fn close(&mut self, _data: &mut HandlerData) {}
}

/// Removes nodes with an even id.
struct TestOnlyElementFilter;
impl Handler for TestOnlyElementFilter {
    fn name(&self) -> String {
        "TestOnlyElementFilter".to_string()
    }
    fn handle(&mut self, data: &mut HandlerData) {
        data.nodes.retain(|node| node.id % 2 != 0);
    }
    fn flush(&mut self, data: &mut HandlerData) {
        self.handle(data)
    }

    fn close(&mut self, _data: &mut HandlerData) {}
}

/// Adds a copy of each node with its id increased by 100.
struct TestOnlyElementAdder;
impl Handler for TestOnlyElementAdder {
    fn name(&self) -> String {
        "TestOnlyElementAdder".to_string()
    }
    fn handle(&mut self, data: &mut HandlerData) {
        let mut new_nodes = vec![];
        data.nodes.iter().for_each(|node| new_nodes.push(copy_node_with_new_id(node, node.id + 100)));
        data.nodes.extend(new_nodes);
    }
    fn flush(&mut self, data: &mut HandlerData) {
        self.handle(data)
    }

    fn close(&mut self, _data: &mut HandlerData) {}
}

/// Buffers elements; from the third buffered node on it emits every node
/// together with a copy of it; flush emits what is buffered.
#[derive(Default)]
struct TestOnlyElementBufferingDuplicatingEditingProcessor {
    nodes_cache: Vec<Node>,
    ways_cache: Vec<Way>,
    relations_cache: Vec<Relation>,
}
impl TestOnlyElementBufferingDuplicatingEditingProcessor {
    fn handle_node(&self, node: Node) -> Vec<Node> {
        let mut node_clone = copy_node_with_new_id(&node, node.id + 100);
        node_clone.tags.push(Tag::new("elevation".to_string(), "default-elevation".to_string()));
        vec![node, node_clone]
    }
    fn handle_nodes(&mut self, data: &mut HandlerData) {
        self.nodes_cache.append(&mut data.nodes);
        data.nodes.clear();
        if self.nodes_cache.len() >= 3 {
            self.handle_and_flush_nodes(data);
        }
    }
    fn handle_ways(&mut self, data: &mut HandlerData) {
        self.ways_cache.append(&mut data.ways);
        data.ways.clear();
        if self.ways_cache.len() >= 3 {
            self.flush_ways(data);
        }
    }
    fn flush_ways(&mut self, data: &mut HandlerData) {
        data.ways.append(&mut self.ways_cache);
        self.ways_cache.clear();
    }
    fn handle_relations(&mut self, data: &mut HandlerData) {
        self.relations_cache.append(&mut data.relations);
        data.relations.clear();
        if self.relations_cache.len() >= 3 {
            self.flush_relations(data);
        }
    }
    fn flush_relations(&mut self, data: &mut HandlerData) {
        data.relations.append(&mut self.relations_cache);
        self.relations_cache.clear();
    }
    fn handle_and_flush_nodes(&mut self, data: &mut HandlerData) {
        let mut result_vec = Vec::new();
        let cache: Vec<Node> = self.nodes_cache.drain(..).collect();
        for node in cache {
            result_vec.extend(self.handle_node(node));
        }
        data.nodes = result_vec;
    }
}
impl Handler for TestOnlyElementBufferingDuplicatingEditingProcessor {
    fn name(&self) -> String {
        "TestOnlyElementBuffer".to_string()
    }
    fn handle(&mut self, data: &mut HandlerData) {
        self.handle_nodes(data);
        self.handle_ways(data);
        self.handle_relations(data);
    }
    fn flush(&mut self, data: &mut HandlerData) {
        self.handle_and_flush_nodes(data);
        self.flush_ways(data);
        self.flush_relations(data);
    }
    fn close(&mut self, _data: &mut HandlerData) {}
}

/// Marks node ids in the data, way and relation ids in its own bits.
struct TestOnlyIdCollector {
    way_ids: BitVec,
    relation_ids: BitVec,
}
impl TestOnlyIdCollector {
    fn new(nbits: usize) -> Self {
        TestOnlyIdCollector { way_ids: BitVec::from_elem(nbits, false), relation_ids: BitVec::from_elem(nbits, false) }
    }
}
impl Handler for TestOnlyIdCollector {
    fn name(&self) -> String {
        "TestOnlyIdCollector".to_string()
    }
    fn handle(&mut self, data: &mut HandlerData) {
        for node in data.nodes.iter() {
            data.accept_node_ids.set(node.id as usize, true);
        }
        data.ways.iter().for_each(|way| self.way_ids.set(way.id as usize, true));
        data.relations.iter().for_each(|relation| self.relation_ids.set(relation.id as usize, true));
    }
    fn flush(&mut self, data: &mut HandlerData) {
        self.handle(data)
    }

    fn close(&mut self, _data: &mut HandlerData) {}
}

/// Records the ids it receives and stores them as an other result on close.
struct TestOnlyOrderRecorder {
    received_ids: Vec<String>,
    result_key: String,
}
impl TestOnlyOrderRecorder {
    fn new(result_key: &str) -> Self {
        Self { received_ids: vec![], result_key: result_key.to_string() }
    }
}
impl Handler for TestOnlyOrderRecorder {
    fn name(&self) -> String {
        format!("TestOnlyOrderRecorder {}", self.result_key)
    }
    fn handle(&mut self, data: &mut HandlerData) {
        data.nodes.iter().for_each(|node| self.received_ids.push(format!("node#{}", node.id)));
        data.ways.iter().for_each(|way| self.received_ids.push(format!("way#{}", way.id)));
        data.relations.iter().for_each(|relation| self.received_ids.push(format!("relation#{}", relation.id)));
    }
    fn close(&mut self, data: &mut HandlerData) {
        data.other.insert(self.name(), self.received_ids.join(", "));
    }
    fn flush(&mut self, data: &mut HandlerData) {
        self.handle(data)
    }
}

fn recorded(data: &HandlerData, key: &str) -> String {
    data.other.get(key).unwrap().clone()
}

fn assert_element_counts(
    data: &HandlerData,
    input_node_count: u64,
    output_node_count: u64,
    input_relation_count: u64,
    output_relation_count: u64,
    input_way_count: u64,
    output_way_count: u64,
) {
    assert_eq!(data.input_node_count, input_node_count);
    assert_eq!(data.output_node_count, output_node_count);
    assert_eq!(data.input_relation_count, input_relation_count);
    assert_eq!(data.output_relation_count, output_relation_count);
    assert_eq!(data.input_way_count, input_way_count);
    assert_eq!(data.output_way_count, output_way_count);
}

fn printer_for(prefix: &str, ids: HashSet<i64>) -> ElementPrinter {
    ElementPrinter::with_prefix(prefix.to_string()).with_node_ids(ids)
}

#[test]
fn handler_test_chain() {
    let mut data = HandlerData::with_capacity(TEST_ID_BITS, TEST_ID_BITS, TEST_ID_BITS);
    let mut processor_chain = HandlerChain::default()
        .add(Box::new(ElementCounter::new(ElementCountResultType::InputCount)))
        .add(Box::new(TestOnlyOrderRecorder::new("initial")))
        .add(Box::new(TestOnlyIdCollector::new(10)))
        .add(Box::new(printer_for("final: ", HashSet::from([8]))))
        .add(Box::new(TestOnlyOrderRecorder::new("final")))
        .add(Box::new(ElementCounter::new(ElementCountResultType::OutputCount)));
    processor_chain.process(simple_node_element(1, vec![("who", "kasper")]), &mut data);
    processor_chain.process(simple_node_element(2, vec![("who", "seppl")]), &mut data);
    processor_chain.process(simple_node_element(6, vec![("who", "hotzenplotz")]), &mut data);
    processor_chain.process(simple_node_element(8, vec![("who", "großmutter")]), &mut data);
    processor_chain.flush_handlers(&mut data);
    processor_chain.close_handlers(&mut data);

    assert_element_counts(&data, 4, 4, 0, 0, 0, 0);
    assert_eq!(recorded(&data, "TestOnlyOrderRecorder initial"), "node#1, node#2, node#6, node#8");
    assert_eq!(recorded(&data, "TestOnlyOrderRecorder final"), "node#1, node#2, node#6, node#8");
    assert!(data.accept_node_ids.get(1).unwrap());
    assert!(data.accept_node_ids.get(2).unwrap());
    assert!(data.accept_node_ids.get(6).unwrap());
    assert!(data.accept_node_ids.get(8).unwrap());
    assert!(!data.accept_node_ids.get(3).unwrap());
}

#[test]
fn handler_test_chain_with_buffer() {
    let mut data = HandlerData::with_capacity(TEST_ID_BITS, TEST_ID_BITS, TEST_ID_BITS);
    let mut processor_chain = HandlerChain::default()
        .add(Box::new(ElementCounter::new(ElementCountResultType::InputCount)))
        .add(Box::new(TestOnlyOrderRecorder::new("initial")))
        .add(Box::new(TestOnlyElementBufferingDuplicatingEditingProcessor::default()))
        .add(Box::new(printer_for("final", (1..=200).collect())))
        .add(Box::new(TestOnlyOrderRecorder::new("final")))
        .add(Box::new(ElementCounter::new(ElementCountResultType::OutputCount)));

    processor_chain.process(simple_node_element(1, vec![("who", "kasper")]), &mut data);
    processor_chain.process(simple_node_element(2, vec![("who", "seppl")]), &mut data);
    processor_chain.process(simple_node_element(6, vec![("who", "hotzenplotz")]), &mut data);
    processor_chain.process(simple_node_element(8, vec![("who", "großmutter")]), &mut data);
    processor_chain.process(simple_way_element(23, vec![1, 2, 8, 6], vec![("who", "kasper")]), &mut data);
    processor_chain.process(
        simple_relation_element(66, vec![(MemberType::Way, 23, "kasper&seppl brign großmutter to hotzenplotz")], vec![("who", "großmutter")]),
        &mut data,
    );
    processor_chain.flush_handlers(&mut data);
    processor_chain.close_handlers(&mut data);

    assert_element_counts(&data, 4, 8, 1, 1, 1, 1);
    assert_eq!(recorded(&data, "TestOnlyOrderRecorder initial"), "node#1, node#2, node#6, node#8, way#23, relation#66");
    assert_eq!(
        recorded(&data, "TestOnlyOrderRecorder final"),
        "node#1, node#101, node#2, node#102, node#6, node#106, node#8, node#108, way#23, relation#66"
    );
}

#[test]
fn handler_test_chain_with_element_adder() {
    let mut data = HandlerData::with_capacity(TEST_ID_BITS, TEST_ID_BITS, TEST_ID_BITS);
    let mut processor_chain = HandlerChain::default()
        .add(Box::new(ElementCounter::new(ElementCountResultType::InputCount)))
        .add(Box::new(TestOnlyOrderRecorder::new("initial")))
        .add(Box::new(TestOnlyElementAdder))
        .add(Box::new(printer_for("final", (1..=200).collect())))
        .add(Box::new(TestOnlyOrderRecorder::new("final")))
        .add(Box::new(ElementCounter::new(ElementCountResultType::OutputCount)));

    processor_chain.process(simple_way_element(23, vec![1, 2, 8, 6], vec![("who", "kasper")]), &mut data);
    processor_chain.process(simple_node_element(1, vec![("who", "kasper")]), &mut data);
    processor_chain.process(simple_node_element(2, vec![("who", "seppl")]), &mut data);
    processor_chain.process(simple_node_element(6, vec![("who", "hotzenplotz")]), &mut data);
    processor_chain.process(simple_node_element(8, vec![("who", "großmutter")]), &mut data);
    processor_chain.flush_handlers(&mut data);
    processor_chain.close_handlers(&mut data);

    assert_element_counts(&data, 4, 8, 0, 0, 1, 1);
    assert_eq!(recorded(&data, "TestOnlyOrderRecorder initial"), "way#23, node#1, node#2, node#6, node#8");
    assert_eq!(
        recorded(&data, "TestOnlyOrderRecorder final"),
        "way#23, node#1, node#101, node#2, node#102, node#6, node#106, node#8, node#108"
    );
}

#[test]
fn handler_test_chain_with_element_filter() {
    let mut data = HandlerData::with_capacity(TEST_ID_BITS, TEST_ID_BITS, TEST_ID_BITS);
    let mut processor_chain = HandlerChain::default()
        .add(Box::new(ElementCounter::new(ElementCountResultType::InputCount)))
        .add(Box::new(TestOnlyOrderRecorder::new("initial")))
        .add(Box::new(TestOnlyElementFilter))
        .add(Box::new(printer_for("final", (1..=200).collect())))
        .add(Box::new(TestOnlyOrderRecorder::new("final")))
        .add(Box::new(ElementCounter::new(ElementCountResultType::OutputCount)));

    processor_chain.process(simple_node_element(1, vec![("who", "kasper")]), &mut data);
    processor_chain.process(simple_node_element(2, vec![("who", "seppl")]), &mut data);
    processor_chain.process(simple_node_element(6, vec![("who", "hotzenplotz")]), &mut data);
    processor_chain.process(simple_node_element(8, vec![("who", "großmutter")]), &mut data);
    processor_chain.flush_handlers(&mut data);
    processor_chain.close_handlers(&mut data);

    assert_element_counts(&data, 4, 1, 0, 0, 0, 0);
    assert_eq!(recorded(&data, "TestOnlyOrderRecorder initial"), "node#1, node#2, node#6, node#8");
    assert_eq!(recorded(&data, "TestOnlyOrderRecorder final"), "node#1");
}

#[test]
fn handler_test_chain_with_element_replacer() {
    let mut data = HandlerData::with_capacity(TEST_ID_BITS, TEST_ID_BITS, TEST_ID_BITS);
    let mut processor_chain = HandlerChain::default()
        .add(Box::new(ElementCounter::new(ElementCountResultType::InputCount)))
        .add(Box::new(TestOnlyOrderRecorder::new("initial")))
        .add(Box::new(TestOnlyElementReplacer))
        .add(Box::new(printer_for("final", (1..=200).collect())))
        .add(Box::new(TestOnlyOrderRecorder::new("final")))
        .add(Box::new(ElementCounter::new(ElementCountResultType::OutputCount)));

    processor_chain.process(simple_node_element(1, vec![("who", "kasper")]), &mut data);
    processor_chain.process(simple_node_element(2, vec![("who", "seppl")]), &mut data);
    processor_chain.process(simple_node_element(6, vec![("who", "hotzenplotz")]), &mut data);
    processor_chain.process(simple_node_element(8, vec![("who", "großmutter")]), &mut data);
    processor_chain.flush_handlers(&mut data);
    processor_chain.close_handlers(&mut data);

    assert_element_counts(&data, 4, 4, 0, 0, 0, 0);
    assert_eq!(recorded(&data, "TestOnlyOrderRecorder initial"), "node#1, node#2, node#6, node#8");
    assert_eq!(recorded(&data, "TestOnlyOrderRecorder final"), "node#1, node#2, node#66, node#8");
}

#[test]
fn handler_test_chain_with_element_modifier() {
    let mut data = HandlerData::with_capacity(TEST_ID_BITS, TEST_ID_BITS, TEST_ID_BITS);
    let mut processor_chain = HandlerChain::default()
        .add(Box::new(ElementCounter::new(ElementCountResultType::InputCount)))
        .add(Box::new(TestOnlyOrderRecorder::new("initial")))
        .add(Box::new(TestOnlyElementModifier))
        .add(Box::new(TagKeyBasedOsmElementsFilter::new(
            OsmElementTypeSelection::node_only(),
            vec!["added".to_string()],
            FilterType::AcceptMatching,
        )))
        .add(Box::new(printer_for("final", (1..=200).collect())))
        .add(Box::new(TestOnlyOrderRecorder::new("final")))
        .add(Box::new(ElementCounter::new(ElementCountResultType::OutputCount)));

    processor_chain.process(simple_node_element(1, vec![("who", "kasper")]), &mut data);
    processor_chain.process(simple_node_element(2, vec![("who", "seppl")]), &mut data);
    processor_chain.process(simple_node_element(6, vec![("who", "hotzenplotz")]), &mut data);
    processor_chain.process(simple_node_element(8, vec![("who", "großmutter")]), &mut data);
    processor_chain.flush_handlers(&mut data);
    processor_chain.close_handlers(&mut data);

    assert_element_counts(&data, 4, 3, 0, 0, 0, 0);
    assert_eq!(recorded(&data, "TestOnlyOrderRecorder initial"), "node#1, node#2, node#6, node#8");
    assert_eq!(recorded(&data, "TestOnlyOrderRecorder final"), "node#2, node#6, node#8");
}

fn handle_test_nodes_and_verify_result(mut handler_chain: HandlerChain, data: &mut HandlerData) {
    handler_chain.process(simple_node_element(1, vec![(existing_tag().as_str(), "kasper")]), data);
    handler_chain.process(simple_node_element(2, vec![(existing_tag().as_str(), "seppl")]), data);
    handler_chain.process(simple_node_element(3, vec![(existing_tag().as_str(), "hotzenplotz")]), data);
    handler_chain.process(simple_node_element(4, vec![(existing_tag().as_str(), "großmutter")]), data);

    handler_chain.flush_handlers(data);
    handler_chain.close_handlers(data);
    assert_element_counts(data, 4, 2, 0, 0, 0, 0);
    assert_eq!(data.accept_node_ids[0], false);
    assert_eq!(data.accept_node_ids[1], true);
    assert_eq!(data.accept_node_ids[2], true);
    assert_eq!(data.accept_node_ids[3], false);
    assert_eq!(data.accept_node_ids[4], false);
}

#[test]
fn handler_handler_chain() {
    let mut data = HandlerData::with_capacity(TEST_ID_BITS, TEST_ID_BITS, TEST_ID_BITS);
    let chain = HandlerChain::default()
        .add(Box::new(ElementCounter::new(ElementCountResultType::InputCount)))
        .add(Box::new(TagValueBasedOsmElementsFilter::new(
            OsmElementTypeSelection::node_only(),
            existing_tag(),
            Pattern::new(".*p.*").unwrap(),
            FilterType::AcceptMatching,
        )))
        .add(Box::new(TagValueBasedOsmElementsFilter::new(
            OsmElementTypeSelection::node_only(),
            existing_tag(),
            Pattern::new(".*z.*").unwrap(),
            FilterType::RemoveMatching,
        )))
        .add(Box::new(ElementCounter::new(ElementCountResultType::OutputCount)))
        .add(Box::new(TestOnlyIdCollector::new(100)));

    handle_test_nodes_and_verify_result(chain, &mut data);
}

#[test]
fn handler_handler_chain_with_node_id_filter() {
    let mut data = HandlerData::with_capacity(TEST_ID_BITS, TEST_ID_BITS, TEST_ID_BITS);
    data.accept_node_ids.set(1usize, true);
    data.accept_node_ids.set(2usize, true);
    let chain = HandlerChain::default()
        .add(Box::new(ElementCounter::new(ElementCountResultType::InputCount)))
        .add(Box::new(IdFilter { handle_types: OsmElementTypeSelection::node_only() }))
        .add(Box::new(ElementCounter::new(ElementCountResultType::OutputCount)));

    handle_test_nodes_and_verify_result(chain, &mut data);
}

#[test]
fn handler_chains_with_node_id_collector_and_filter() {
    let mut data = HandlerData::with_capacity(TEST_ID_BITS, TEST_ID_BITS, TEST_ID_BITS);
    let mut chain1 = HandlerChain::default().add(Box::new(ReferencedNodeIdCollector::default()));

    let chain2 = HandlerChain::default()
        .add(Box::new(ElementCounter::new(ElementCountResultType::InputCount)))
        .add(Box::new(IdFilter { handle_types: OsmElementTypeSelection::node_only() }))
        .add(Box::new(ElementCounter::new(ElementCountResultType::OutputCount)));

    chain1.process(simple_way_element(23, vec![1, 2], vec![("who", "kasper")]), &mut data);

    handle_test_nodes_and_verify_result(chain2, &mut data);
}

fn add_to_result(data: &mut HandlerData, elements: Vec<(MemberType, i64)>) {
    for (member_type, id) in elements {
        match member_type {
            MemberType::Node => data.nodes.push(simple_node(id, vec![])),
            MemberType::Way => data.ways.push(simple_way(id, vec![], vec![])),
            MemberType::Relation => data.relations.push(simple_relation(id, vec![], vec![])),
        }
    }
}

fn process_elements_one_by_one(handler_chain: &mut HandlerChain, data: &mut HandlerData, elements: Vec<(MemberType, i64)>) {
    for (member_type, id) in elements {
        match member_type {
            MemberType::Node => handler_chain.process(simple_node_element(id, vec![]), data),
            MemberType::Way => handler_chain.process(simple_way_element(id, vec![], vec![]), data),
            MemberType::Relation => handler_chain.process(simple_relation_element(id, vec![], vec![]), data),
        }
    }
    handler_chain.flush_handlers(data);
    handler_chain.close_handlers(data);
}

fn flush_elements_one_by_one(handler_chain: &mut HandlerChain, data: &mut HandlerData, elements: Vec<(MemberType, i64)>) {
    for (member_type, id) in elements {
        match member_type {
            MemberType::Node => {
                data.nodes.push(simple_node(id, vec![]));
                handler_chain.flush_handlers(data);
            }
            MemberType::Way => {
                data.ways.push(simple_way(id, vec![], vec![]));
                handler_chain.flush_handlers(data);
            }
            MemberType::Relation => {
                data.relations.push(simple_relation(id, vec![], vec![]));
                handler_chain.flush_handlers(data);
            }
        }
    }
    handler_chain.close_handlers(data);
}

fn flush_elements_in_one_call(handler_chain: &mut HandlerChain, data: &mut HandlerData, elements: Vec<(MemberType, i64)>) {
    add_to_result(data, elements);
    handler_chain.flush_handlers(data);
    handler_chain.close_handlers(data);
}

fn nine_elements() -> Vec<(MemberType, i64)> {
    vec![
        (MemberType::Node, 1), (MemberType::Way, 11), (MemberType::Relation, 21),
        (MemberType::Node, 2), (MemberType::Way, 12), (MemberType::Relation, 22),
        (MemberType::Node, 3), (MemberType::Way, 13), (MemberType::Relation, 23),
    ]
}

fn all_elements_chain(handle_type: OsmElementTypeSelection) -> HandlerChain {
    HandlerChain::default()
        .add(Box::new(TestOnlyOrderRecorder::new("initial")))
        .add(Box::new(AllElementsFilter { handle_types: handle_type }))
        .add(Box::new(TestOnlyOrderRecorder::new("final")))
}

#[test]
fn test_handler_chain_with_all_elements_filter_node_only() {
    let mut data = HandlerData::with_capacity(TEST_ID_BITS, TEST_ID_BITS, TEST_ID_BITS);
    let mut handler_chain = all_elements_chain(OsmElementTypeSelection::node_only());
    process_elements_one_by_one(&mut handler_chain, &mut data, nine_elements());
    assert_eq!(
        "node#1, way#11, relation#21, node#2, way#12, relation#22, node#3, way#13, relation#23",
        recorded(&data, "TestOnlyOrderRecorder initial")
    );
    assert_eq!("way#11, relation#21, way#12, relation#22, way#13, relation#23", recorded(&data, "TestOnlyOrderRecorder final"));
}

#[test]
fn test_handler_chain_with_all_elements_filter_way_only() {
    let mut data = HandlerData::with_capacity(TEST_ID_BITS, TEST_ID_BITS, TEST_ID_BITS);
    let mut handler_chain = all_elements_chain(OsmElementTypeSelection::way_only());
    process_elements_one_by_one(&mut handler_chain, &mut data, nine_elements());
    assert_eq!(
        "node#1, way#11, relation#21, node#2, way#12, relation#22, node#3, way#13, relation#23",
        recorded(&data, "TestOnlyOrderRecorder initial")
    );
    assert_eq!("node#1, relation#21, node#2, relation#22, node#3, relation#23", recorded(&data, "TestOnlyOrderRecorder final"));
}

#[test]
fn test_handler_chain_process_elements_with_all_elements_filter_all() {
    let mut data = HandlerData::with_capacity(TEST_ID_BITS, TEST_ID_BITS, TEST_ID_BITS);
    let mut handler_chain = all_elements_chain(OsmElementTypeSelection::all());
    process_elements_one_by_one(&mut handler_chain, &mut data, nine_elements());
    assert_eq!(
        "node#1, way#11, relation#21, node#2, way#12, relation#22, node#3, way#13, relation#23",
        recorded(&data, "TestOnlyOrderRecorder initial")
    );
    assert_eq!("", recorded(&data, "TestOnlyOrderRecorder final"));
}

#[test]
fn test_handler_chain_flush_one_by_one_with_all_elements_filter_all() {
    let mut data = HandlerData::with_capacity(TEST_ID_BITS, TEST_ID_BITS, TEST_ID_BITS);
    let mut handler_chain = all_elements_chain(OsmElementTypeSelection::all());
    flush_elements_one_by_one(&mut handler_chain, &mut data, nine_elements());
    assert_eq!(
        "node#1, way#11, relation#21, node#2, way#12, relation#22, node#3, way#13, relation#23",
        recorded(&data, "TestOnlyOrderRecorder initial")
    );
    assert_eq!("", recorded(&data, "TestOnlyOrderRecorder final"));
}

#[test]
fn test_handler_chain_flush_in_one_call_with_all_elements_filter_all() {
    let mut data = HandlerData::with_capacity(TEST_ID_BITS, TEST_ID_BITS, TEST_ID_BITS);
    let mut handler_chain = all_elements_chain(OsmElementTypeSelection::all());
    flush_elements_in_one_call(&mut handler_chain, &mut data, nine_elements());
    assert_eq!(
        "node#1, node#2, node#3, way#11, way#12, way#13, relation#21, relation#22, relation#23",
        recorded(&data, "TestOnlyOrderRecorder initial")
    );
    assert_eq!("", recorded(&data, "TestOnlyOrderRecorder final"));
}

#[test]
fn test_handler_chain_process_with_complex_elements_filter() {
    let mut data = HandlerData::with_capacity(TEST_ID_BITS, TEST_ID_BITS, TEST_ID_BITS);
    let mut handler_chain = HandlerChain::default()
        .add(Box::new(TestOnlyOrderRecorder::new("initial")))
        .add(Box::new(ComplexElementsFilter::ors_default()))
        .add(Box::new(TestOnlyOrderRecorder::new("final")));

    handler_chain.process(simple_way_element(1, vec![], vec![("building", "x")]), &mut data);
    handler_chain.process(simple_relation_element(1, vec![], vec![("building", "x")]), &mut data);
    handler_chain.process(simple_way_element(2, vec![], vec![("route", "xyz")]), &mut data);
    handler_chain.process(simple_relation_element(2, vec![], vec![("route", "xyz")]), &mut data);
    handler_chain.process(simple_node_element(1, vec![]), &mut data);

    handler_chain.flush_handlers(&mut data);
    handler_chain.close_handlers(&mut data);

    assert_eq!("way#1, relation#1, way#2, relation#2, node#1", recorded(&data, "TestOnlyOrderRecorder initial"));
    assert_eq!("way#2, relation#2, node#1", recorded(&data, "TestOnlyOrderRecorder final"));
}

#[test]
fn test_handler_chain_flush_in_one_call_with_complex_elements_filter() {
    let mut data = HandlerData::with_capacity(TEST_ID_BITS, TEST_ID_BITS, TEST_ID_BITS);
    let mut handler_chain = HandlerChain::default()
        .add(Box::new(TestOnlyOrderRecorder::new("initial")))
        .add(Box::new(ComplexElementsFilter::ors_default()))
        .add(Box::new(TestOnlyOrderRecorder::new("final")));

    data.ways.push(simple_way(1, vec![], vec![("building", "x")]));
    data.relations.push(simple_relation(1, vec![], vec![("building", "x")]));
    data.ways.push(simple_way(2, vec![], vec![("route", "xyz")]));
    data.relations.push(simple_relation(2, vec![], vec![("route", "xyz")]));
    data.nodes.push(simple_node(1, vec![]));

    handler_chain.flush_handlers(&mut data);
    handler_chain.close_handlers(&mut data);

    assert_eq!("node#1, way#1, way#2, relation#1, relation#2", recorded(&data, "TestOnlyOrderRecorder initial"));
    assert_eq!("node#1, way#2, relation#2", recorded(&data, "TestOnlyOrderRecorder final"));
}

#[test]
fn element_printer() {
    let mut printer = ElementPrinter::with_prefix("test".to_string()).with_node_ids(vec![1, 2].into_iter().collect());
    let mut data = HandlerData::with_capacity(10, 10, 10);
    data.nodes.push(simple_node(1, vec![("building", "x")]));
    printer.handle(&mut data);
    assert_eq!(data.nodes.len(), 1);
    data.clear_elements();
    data.nodes.push(simple_node(2, vec![("something", "x")]));
    printer.handle(&mut data);
    assert_eq!(data.nodes.len(), 1);
}

#[test]
fn element_printer_describes_selected_elements_only() {
    let mut printer = ElementPrinter::with_prefix("test".to_string()).with_node_ids(HashSet::from([1]));
    let mut data = HandlerData::with_capacity(10, 10, 10);
    data.nodes.push(simple_node(1, vec![("a", "b")]));
    data.nodes.push(simple_node(3, vec![]));
    data.ways.push(simple_way(1, vec![1], vec![]));
    printer.handle(&mut data);
    let printed = printer.take_printed();
    assert_eq!(printed.len(), 1);
    assert_eq!(
        printed[0],
        "test: node 1 visible: true\n  version:    1\n  coordinate: lat,lon = 1,1.1\n  changeset:  1\n  timestamp:  1\n  uid:        1\n  user:       a\n  tags:\n   'a' = 'b'\n"
    );
    assert!(printer.take_printed().is_empty());
}

/// Counts how often it is flushed.
struct FlushCounter {
    flushes: std::rc::Rc<std::cell::Cell<u32>>,
}
impl Handler for FlushCounter {
    fn name(&self) -> String {
        "FlushCounter".to_string()
    }
    fn handle(&mut self, _data: &mut HandlerData) {}
    fn flush(&mut self, _data: &mut HandlerData) {
        self.flushes.set(self.flushes.get() + 1);
    }
    fn close(&mut self, _data: &mut HandlerData) {}
}

#[test]
fn chain_flushes_once_before_first_way_and_first_relation() {
    let flushes = std::rc::Rc::new(std::cell::Cell::new(0));
    let mut data = HandlerData::with_capacity(10, 10, 10);
    let mut chain = HandlerChain::default().add(Box::new(FlushCounter { flushes: flushes.clone() }));
    chain.process(simple_node_element(1, vec![]), &mut data);
    assert_eq!(flushes.get(), 0);
    chain.process(simple_way_element(1, vec![], vec![]), &mut data);
    chain.process(simple_way_element(2, vec![], vec![]), &mut data);
    assert_eq!(flushes.get(), 1);
    chain.process(simple_relation_element(1, vec![], vec![]), &mut data);
    chain.process(simple_relation_element(2, vec![], vec![]), &mut data);
    assert_eq!(flushes.get(), 2);
    assert!(data.nodes.is_empty() && data.ways.is_empty() && data.relations.is_empty());
}
