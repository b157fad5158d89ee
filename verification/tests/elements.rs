use bit_vec::BitVec;
use rusty_routes_transformer::collect::{safe_id, IdCollector, IdRange, MinMaxIdCollector, ReferencedNodeIdCollector};
use rusty_routes_transformer::handler::{Handler, HandlerData};
use rusty_routes_transformer::interpolate::WaySplitter;
use rusty_routes_transformer::model::{format_element_id, Element, Member, MemberData, Node, Relation, Tag, Way};
use rusty_routes_transformer::modify::MetadataRemover;
use rusty_routes_transformer::osm_model::{MutableNode, MutableWay};
use rusty_routes_transformer::selection::OsmElementTypeSelection;
use rusty_routes_transformer::skip_ele::SkipElevationNodeCollector;

/// Id bits for the tests: enough for every id they use.
const TEST_ID_BITS: usize = 100_000;

fn tags_of(tags: Vec<(&str, &str)>) -> Vec<Tag> {
    tags.iter().map(|(k, v)| Tag::new(k.to_string(), v.to_string())).collect()
}

fn simple_node(id: i64, tags: Vec<(&str, &str)>) -> Node {
    Node::new(id, 1, 10_000_000, 11_000_000, 1, 1, 1, "a".to_string(), true, tags_of(tags))
}

fn simple_way(id: i64, refs: Vec<i64>, tags: Vec<(&str, &str)>) -> Way {
    Way::new(id, 1, 1, 1, 1, "a".to_string(), true, refs, tags_of(tags))
}

/// Marks node ids in the data, way and relation ids in its own bits.
struct TestOnlyIdCollector {
    way_ids: BitVec,
    relation_ids: BitVec,
}
impl TestOnlyIdCollector {
    fn new(nbits: usize) -> Self {
        TestOnlyIdCollector { way_ids: BitVec::from_elem(nbits, false), relation_ids: BitVec::from_elem(nbits, false) }
    }
}
impl Handler for TestOnlyIdCollector {
    fn name(&self) -> String {
        "TestOnlyIdCollector".to_string()
    }
    fn handle(&mut self, data: &mut HandlerData) {
        for node in data.nodes.iter() {
            data.accept_node_ids.set(node.id as usize, true);
        }
        data.ways.iter().for_each(|way| self.way_ids.set(way.id as usize, true));
        data.relations.iter().for_each(|relation| self.relation_ids.set(relation.id as usize, true));
    }
    fn flush(&mut self, data: &mut HandlerData) {
        self.handle(data)
    }

    fn close(&mut self, _data: &mut HandlerData) {}
}

#[test]
fn node_id_collector() {
    let mut collector = TestOnlyIdCollector::new(10);
    let mut data = HandlerData::with_capacity(TEST_ID_BITS, TEST_ID_BITS, TEST_ID_BITS);
    data.nodes.push(simple_node(2, vec![]));
    collector.handle(&mut data);
    assert_eq!(false, data.accept_node_ids.get(0).unwrap_or(false));
    assert_eq!(false, data.accept_node_ids.get(1).unwrap_or(false));
    assert_eq!(true, data.accept_node_ids.get(2).unwrap_or(false));
}

#[test]
#[should_panic(expected = "index out of bounds: 12 >= 10")]
fn collect_node_id_collector_out_of_bounds() {
    let mut collector = TestOnlyIdCollector::new(10);
    let mut data = HandlerData::with_capacity(TEST_ID_BITS, TEST_ID_BITS, TEST_ID_BITS);
    data.ways.push(simple_way(12, vec![], vec![]));
    collector.handle(&mut data);
}

#[test]
fn node_id_collector_out_of_bounds_real() {
    let mut collector = TestOnlyIdCollector::new(16);
    let mut data = HandlerData::with_capacity(11_414_456_781, 16, 16);
    data.nodes.push(simple_node(1, vec![]));
    collector.handle(&mut data);
    assert_eq!(false, data.accept_node_ids.get(0).unwrap_or(false));
    assert_eq!(true, data.accept_node_ids.get(1).unwrap_or(false));
    assert_eq!(false, data.accept_node_ids.get(2).unwrap_or(false));
    assert_eq!(false, data.accept_node_ids.get(11414456780).unwrap_or(false));

    data.clear_elements();
    data.nodes.push(simple_node(11414456780, vec![]));
    collector.handle(&mut data);
    assert_eq!(true, data.accept_node_ids.get(11414456780).unwrap_or(false));
}

#[test]
fn referenced_node_id_collector_marks_way_refs_and_node_members() {
    let mut data = HandlerData::with_capacity(20, 20, 20);
    data.ways.push(simple_way(1, vec![3, 4], vec![]));
    data.relations.push(Relation::new(
        1, 1, 1, 1, 1, "a".to_string(), true,
        vec![
            Member::Node { member: MemberData::new(7, "stop".to_string()) },
            Member::Way { member: MemberData::new(9, "".to_string()) },
        ],
        vec![],
    ));
    let mut collector = ReferencedNodeIdCollector::default();
    collector.handle(&mut data);
    let set: Vec<usize> = (0..20).filter(|i| data.accept_node_ids[*i]).collect();
    assert_eq!(set, vec![3, 4, 7]);
}

#[test]
fn referenced_node_id_collector_leaves_data_alone_when_an_id_has_no_bit() {
    let mut data = HandlerData::with_capacity(5, 5, 5);
    data.ways.push(simple_way(1, vec![3, 40], vec![]));
    let mut collector = ReferencedNodeIdCollector::default();
    collector.handle(&mut data);
    assert!(!data.accept_node_ids[3]);
}

#[test]
fn id_collector_marks_non_negative_ids_of_handled_kinds() {
    let mut data = HandlerData::with_capacity(10, 10, 10);
    data.nodes.push(simple_node(2, vec![]));
    data.nodes.push(simple_node(-3, vec![]));
    data.ways.push(simple_way(5, vec![], vec![]));
    let mut collector = IdCollector { handle_types: OsmElementTypeSelection::node_only() };
    collector.handle(&mut data);
    assert!(data.accept_node_ids[2]);
    assert!(!data.accept_way_ids[5]);
    assert_eq!(safe_id(-3), None);
    assert_eq!(safe_id(7), Some(7));
}

#[test]
fn min_max_id_collector_records_bounds() {
    let mut data = HandlerData::with_capacity(10, 10, 10);
    let mut collector = MinMaxIdCollector::new(OsmElementTypeSelection::node_only());
    for id in [5, -7, 3, -2, 11] {
        data.nodes.push(simple_node(id, vec![]));
    }
    collector.handle(&mut data);
    collector.close(&mut data);
    assert_eq!(data.other.get("min_pos_node_id").unwrap(), "3");
    assert_eq!(data.other.get("max_pos_node_id").unwrap(), "11");
    assert_eq!(data.other.get("min_neg_node_id").unwrap(), "-7");
    assert_eq!(data.other.get("max_neg_node_id").unwrap(), "0");
    assert!(data.other.get("min_pos_way_id").is_none());
    let initial = IdRange::initial();
    assert_eq!(initial.min_pos, i64::MAX);
    assert_eq!(initial.max_pos, i64::MIN);
}

#[test]
fn modify_metadata_remover_node() {
    let mut metadata_remover = MetadataRemover::default();
    let mut result = HandlerData::with_capacity(10, 10, 10);
    result.nodes.push(Node::new(1, 1, 10_000_000, 11_000_000, 1, 1, 1, "a".to_string(), true, tags_of(vec![("a", "x"), ("b", "y")])));
    metadata_remover.handle(&mut result);
    let node = &result.nodes[0];

    assert_eq!(node.id(), 1);
    assert_eq!(node.version(), 0);
    assert_eq!(node.lat7(), 10_000_000);
    assert_eq!(node.lon7(), 11_000_000);
    assert_eq!(node.timestamp(), 0);
    assert_eq!(node.changeset(), 0);
    assert_eq!(node.uid(), 0);
    assert_eq!(node.user(), &String::default());
    assert_eq!(node.visible(), true);
    assert_eq!(node.tags()[0].k(), &"a".to_string());
    assert_eq!(node.tags()[0].v(), &"x".to_string());
    assert_eq!(node.tags()[1].k(), &"b".to_string());
    assert_eq!(node.tags()[1].v(), &"y".to_string());
}

#[test]
fn modify_metadata_remover_way() {
    let mut metadata_remover = MetadataRemover::default();
    let mut result = HandlerData::with_capacity(10, 10, 10);
    result.ways.push(Way::new(1, 1, 1, 1, 1, "user".to_string(), true, vec![4, 6], tags_of(vec![("a", "x"), ("b", "y")])));
    metadata_remover.handle(&mut result);
    let way = &result.ways[0];
    assert_eq!(way.id(), 1);
    assert_eq!(way.version(), 0);
    assert_eq!(way.timestamp(), 0);
    assert_eq!(way.changeset(), 0);
    assert_eq!(way.uid(), 0);
    assert_eq!(way.user(), &String::default());
    assert_eq!(way.visible(), true);
    assert_eq!(way.refs()[0], 4);
    assert_eq!(way.refs()[1], 6);
    assert_eq!(way.tags()[0].k(), &"a".to_string());
    assert_eq!(way.tags()[0].v(), &"x".to_string());
    assert_eq!(way.tags()[1].k(), &"b".to_string());
    assert_eq!(way.tags()[1].v(), &"y".to_string());
}

#[test]
fn modify_metadata_remover_relation() {
    let mut metadata_remover = MetadataRemover::default();
    let mut result = HandlerData::with_capacity(10, 10, 10);
    result.relations.push(Relation::new(
        1, 1, 1, 1, 1, "user".to_string(), true,
        vec![
            Member::Node { member: MemberData::new(5, "a".to_string()) },
            Member::Node { member: MemberData::new(6, "b".to_string()) },
            Member::Way { member: MemberData::new(10, "b".to_string()) },
            Member::Relation { member: MemberData::new(20, "b".to_string()) },
        ],
        tags_of(vec![("a", "x"), ("b", "y")]),
    ));
    metadata_remover.handle(&mut result);
    let relation = &result.relations[0];
    assert_eq!(relation.id(), 1);
    assert_eq!(relation.version(), 0);
    assert_eq!(relation.timestamp(), 0);
    assert_eq!(relation.changeset(), 0);
    assert_eq!(relation.uid(), 0);
    assert_eq!(relation.user(), &String::default());
    assert_eq!(relation.visible(), true);
    assert_eq!(relation.members()[0], Member::Node { member: MemberData::new(5, "a".to_string()) });
    assert_eq!(relation.members()[1], Member::Node { member: MemberData::new(6, "b".to_string()) });
    assert_eq!(relation.members()[2], Member::Way { member: MemberData::new(10, "b".to_string()) });
    assert_eq!(relation.members()[3], Member::Relation { member: MemberData::new(20, "b".to_string()) });
    assert_eq!(relation.tags()[0].k(), &"a".to_string());
    assert_eq!(relation.tags()[0].v(), &"x".to_string());
    assert_eq!(relation.tags()[1].k(), &"b".to_string());
    assert_eq!(relation.tags()[1].v(), &"y".to_string());
}

#[test]
fn metadata_removal_twice_equals_once() {
    let mut remover = MetadataRemover::default();
    let mut once = HandlerData::with_capacity(1, 1, 1);
    once.ways.push(simple_way(3, vec![1, 2], vec![("highway", "track")]));
    remover.handle(&mut once);
    let first = once.ways[0].clone();
    remover.handle(&mut once);
    assert_eq!(once.ways[0], first);
}

const TUNNEL: (&str, &str) = ("tunnel", "avalanche_protector");
const BRIDGE: (&str, &str) = ("bridge", "yes");
const INDOOR: (&str, &str) = ("bridge", "yes");
const CUTTING: (&str, &str) = ("bridge", "yes");
const NO_BRIDGE: (&str, &str) = ("bridge", "no");
const HIGHWAY: (&str, &str) = ("highway", "primary");

#[test]
fn test_skip_elevation() {
    let collector = SkipElevationNodeCollector::new(SkipElevationNodeCollector::default_keys());

    assert!(collector.skip_elevation(&simple_way(0, vec![1, 2, 3], vec![TUNNEL])));
    assert!(collector.skip_elevation(&simple_way(0, vec![1, 2, 3], vec![BRIDGE])));
    assert!(collector.skip_elevation(&simple_way(0, vec![1, 2, 3], vec![INDOOR])));
    assert!(collector.skip_elevation(&simple_way(0, vec![1, 2, 3], vec![CUTTING])));
    assert!(collector.skip_elevation(&simple_way(0, vec![1, 2, 3], vec![HIGHWAY, CUTTING])));
    assert!(!collector.skip_elevation(&simple_way(0, vec![1, 2, 3], vec![NO_BRIDGE])));
}

#[test]
fn test_skip_elevation_node_collector_handle_result() {
    let mut data = HandlerData::with_capacity(TEST_ID_BITS, TEST_ID_BITS, TEST_ID_BITS);
    let mut collector = SkipElevationNodeCollector::default();
    data.ways.push(simple_way(1, vec![1, 2, 3], vec![HIGHWAY]));
    data.ways.push(simple_way(2, vec![3, 4], vec![HIGHWAY, BRIDGE]));
    data.ways.push(simple_way(3, vec![4, 5, 6], vec![HIGHWAY, NO_BRIDGE]));
    data.ways.push(simple_way(4, vec![6, 7], vec![HIGHWAY, NO_BRIDGE, CUTTING]));
    data.ways.push(simple_way(5, vec![7, 8, 9], vec![HIGHWAY, TUNNEL]));

    collector.handle(&mut data);

    assert!(!data.no_elevation_node_ids.get(0).unwrap_or(false));
    assert!(!data.no_elevation_node_ids.get(1).unwrap_or(false));
    assert!(!data.no_elevation_node_ids.get(2).unwrap_or(false));
    assert!(data.no_elevation_node_ids.get(3).unwrap_or(false));
    assert!(data.no_elevation_node_ids.get(4).unwrap_or(false));
    assert!(!data.no_elevation_node_ids.get(5).unwrap_or(false));
    assert!(data.no_elevation_node_ids.get(6).unwrap_or(false));
    assert!(data.no_elevation_node_ids.get(7).unwrap_or(false));
    assert!(data.no_elevation_node_ids.get(8).unwrap_or(false));
    assert!(data.no_elevation_node_ids.get(9).unwrap_or(false));
}

fn user_way() -> Way {
    Way::new(1, 1, 1, 1, 1, "user".to_string(), true, vec![1, 2], vec![Tag::new("a_key".to_string(), "a_value".to_string())])
}

#[test]
fn modifyable_way_no_field_changed() {
    let way = user_way();
    let mutable_way = MutableWay::new(&way);
    let changed = mutable_way.build();
    assert_eq!(changed.id(), 1);
    assert_eq!(changed.version(), 1);
    assert_eq!(changed.timestamp(), 1);
    assert_eq!(changed.changeset(), 1);
    assert_eq!(changed.uid(), 1);
    assert_eq!(changed.user(), "user");
    assert_eq!(changed.visible(), true);
    assert_eq!(*changed.refs(), vec![1, 2]);
    assert_eq!(*changed.tags(), vec![Tag::new("a_key".to_string(), "a_value".to_string())]);
}

#[test]
fn modifyable_way_one_field_changed() {
    let way = user_way();
    let mut mutable_way = MutableWay::new(&way);
    mutable_way = mutable_way.set_id(2);
    let changed = mutable_way.build();
    assert_eq!(changed.id(), 2);
    assert_eq!(changed.version(), 1);
    assert_eq!(changed.timestamp(), 1);
    assert_eq!(changed.changeset(), 1);
    assert_eq!(changed.uid(), 1);
    assert_eq!(changed.user(), "user");
    assert_eq!(changed.visible(), true);
    assert_eq!(*changed.refs(), vec![1, 2]);
    assert_eq!(*changed.tags(), vec![Tag::new("a_key".to_string(), "a_value".to_string())]);
}

#[test]
fn modifyable_way_all_fields_changed() {
    let way = user_way();
    let mut mutable_way = MutableWay::new(&way);
    mutable_way = mutable_way.set_id(2);
    mutable_way = mutable_way.set_version(2);
    mutable_way = mutable_way.set_timestamp(2);
    mutable_way = mutable_way.set_changeset(2);
    mutable_way = mutable_way.set_uid(2);
    mutable_way = mutable_way.set_user("changed".to_string());
    mutable_way = mutable_way.set_visible(false);
    mutable_way = mutable_way.set_refs(vec![3, 4]);
    mutable_way = mutable_way.set_tags(vec![Tag::new("new_key".to_string(), "new_value".to_string())]);
    let changed = mutable_way.build();
    assert_eq!(changed.id(), 2);
    assert_eq!(changed.version(), 2);
    assert_eq!(changed.timestamp(), 2);
    assert_eq!(changed.changeset(), 2);
    assert_eq!(changed.uid(), 2);
    assert_eq!(changed.user(), "changed");
    assert_eq!(changed.visible(), false);
    assert_eq!(*changed.refs(), vec![3, 4]);
    assert_eq!(*changed.tags(), vec![Tag::new("new_key".to_string(), "new_value".to_string())]);
}

#[test]
fn mutable_node_takes_tags_and_makes_a_copy() {
    let mut node = simple_node(5, vec![("k", "v")]);
    let mut m = MutableNode::new(&mut node);
    assert!(node.tags().is_empty());
    assert_eq!(m.coordinate(), (10_000_000, 11_000_000));
    m.tags_mut().push(Tag::new("x".to_string(), "y".to_string()));
    let made = m.make_node();
    assert_eq!(made.id(), 5);
    assert_eq!(made.tags().len(), 2);
    assert_eq!(m.take_user(), "a");
    assert_eq!(m.user(), "");
}

#[test]
fn test_node_indexing() {
    let mut way_splitter = WaySplitter::new();
    let coordinate1 = (-10_000_000, 10_000_000);
    let coordinate2 = (12_300_000, 0);
    way_splitter.set_coordinates(&Node::new(1, 1, coordinate1.0, coordinate1.1, 1, 1, 1, "a".to_string(), true, Vec::new()));
    way_splitter.set_coordinates(&Node::new(2, 1, coordinate2.0, coordinate2.1, 1, 1, 1, "a".to_string(), true, Vec::new()));

    assert_eq!(coordinate1, way_splitter.get_coordinates(1).unwrap());
    assert_eq!(coordinate2, way_splitter.get_coordinates(2).unwrap());
    assert!(way_splitter.get_coordinates(3).is_none());
}

#[test]
fn test_intermediate_points() {
    let way_splitter = WaySplitter::new();
    let point_a = (-10_000_000, 0);
    let point_b = (0, 10_000_000);
    let point_c = (10_000_000, 0);
    let point_d = (0, -10_000_000);

    let points = way_splitter.compute_intermediate_points(point_a, point_b, (10_000_000, 10_000_000));
    assert_eq!(points.len(), 0);

    let points = way_splitter.compute_intermediate_points(point_a, point_b, (5_000_000, 5_000_000));
    assert_eq!(points.len(), 1);
    assert_eq!(points[0], (-5_000_000, 5_000_000));

    let points = way_splitter.compute_intermediate_points(point_a, point_b, (3_000_000, 5_000_000));
    assert_eq!(points.len(), 3);
    assert_eq!(points[0], (-7_500_000, 2_500_000));
    assert_eq!(points[1], (-5_000_000, 5_000_000));
    assert_eq!(points[2], (-2_500_000, 7_500_000));

    let points = way_splitter.compute_intermediate_points(point_a, point_c, (10_000_000, 10_000_000));
    assert_eq!(points[0], (0, 0));

    let points = way_splitter.compute_intermediate_points(point_b, point_d, (20_000_000, 10_000_000));
    assert_eq!(points[0], (0, 0));

    let points = way_splitter.compute_intermediate_points(point_a, point_a, (10_000_000, 10_000_000));
    assert_eq!(points.len(), 0);
}

#[test]
fn intermediate_points_round_toward_the_start() {
    let way_splitter = WaySplitter::new();
    let points = way_splitter.compute_intermediate_points((0, 0), (-10, 10), (3, 3));
    assert_eq!(points, vec![(-2, 2), (-5, 5), (-7, 7)]);
}

#[test]
fn element_ids_are_labelled_with_their_kind() {
    assert_eq!(format_element_id(&Element::Node { node: simple_node(42, vec![]) }), "node#42");
    assert_eq!(format_element_id(&Element::Way { way: simple_way(-7, vec![], vec![]) }), "way#-7");
    let relation = Relation::new(3, 1, 1, 1, 1, "a".to_string(), true, vec![], vec![]);
    assert_eq!(format_element_id(&Element::Relation { relation }), "relation#3");
    assert_eq!(format_element_id(&Element::Sentinel), "sentinel#!");
}

#[test]
fn intermediate_points_lie_between_the_ends() {
    let way_splitter = WaySplitter::new();
    let a = (494_000_000, 86_933_000);
    let b = (493_000_000, 87_100_000);
    let points = way_splitter.compute_intermediate_points(a, b, (300, 300));
    assert_eq!(points.len(), 3333);
    for p in points.iter() {
        assert!(b.0 <= p.0 && p.0 <= a.0);
        assert!(a.1 <= p.1 && p.1 <= b.1);
    }
    assert_eq!(points[0], (493_999_701, 86_933_050));
}
