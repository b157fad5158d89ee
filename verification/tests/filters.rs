use rusty_routes_transformer::filter::{
    ComplexElementsFilter, FilterType, TagFilterByKey, TagKeyBasedOsmElementsFilter, TagValueBasedOsmElementsFilter,
};
use rusty_routes_transformer::handler::{Handler, HandlerData};
use rusty_routes_transformer::model::{Node, Tag, Way};
use rusty_routes_transformer::pattern::Pattern;
use rusty_routes_transformer::plan::TAGS_TO_REMOVE;
use rusty_routes_transformer::predicate::{
    HasNoneOfTagKeysPredicate, HasOneOfTagKeysPredicate, HasOnlyMatchingTagsPredicate, HasTagKeyValuePredicate,
};
use rusty_routes_transformer::selection::OsmElementTypeSelection;
use rusty_routes_transformer::strmap::StringMap;

fn tag(k: &str, v: &str) -> Tag {
    Tag::new(k.to_string(), v.to_string())
}

fn node_with_tags(tags: Vec<Tag>) -> Node {
    Node::new(1, 1, 10_000_000, 11_000_000, 1, 1, 1, "a".to_string(), true, tags)
}

fn way_with_tags(id: i64, tags: Vec<Tag>) -> Way {
    Way::new(id, 1, 1, 1, 1, "a".to_string(), true, vec![], tags)
}

fn small_data() -> HandlerData {
    HandlerData::with_capacity(10, 10, 10)
}

#[test]
fn test_tag_filter_by_key_with_remove_matching() {
    let tag_filter = TagFilterByKey::new(
        OsmElementTypeSelection::node_only(),
        Pattern::new(".*bad.*").unwrap(),
        FilterType::RemoveMatching,
    );
    let mut handled_nodes = vec![node_with_tags(vec![
        tag("bad", "hotzenplotz"),
        tag("good", "kasper"),
        tag("more-bad", "vader"),
        tag("more-good", "grandma"),
        tag("badest", "voldemort"),
    ])];
    tag_filter.filter_element_tags(&mut handled_nodes);
    assert_eq!(1, handled_nodes.len());
    let node = handled_nodes.get(0).unwrap();
    assert_eq!(node.tags().len(), 2);
    assert_eq!(node.tags()[0].k(), "good");
    assert_eq!(node.tags()[0].v(), "kasper");
    assert_eq!(node.tags()[1].k(), "more-good");
    assert_eq!(node.tags()[1].v(), "grandma");
}

#[test]
fn test_tag_filter_by_key_with_remove_matching_complex_regex() {
    let tag_filter = TagFilterByKey::new(
        OsmElementTypeSelection::node_only(),
        Pattern::new("(.*:)?source(:.*)?|(.*:)?note(:.*)?|url|created_by|fixme|wikipedia").unwrap(),
        FilterType::RemoveMatching,
    );
    let mut handled_nodes = vec![node_with_tags(vec![
        tag("closed:source", "bad"),
        tag("source", "bad"),
        tag("source:x", "bad"),
        tag("x:source:y", "bad"),
        tag("opensource", "bad"),
        tag("note", "bad"),
        tag("url", "bad"),
        tag("created_by", "bad"),
        tag("fixme", "bad"),
        tag("wikipedia", "bad"),
        tag("wikimedia", "good"),
    ])];
    tag_filter.filter_element_tags(&mut handled_nodes);
    assert_eq!(1, handled_nodes.len());
    let node = handled_nodes.get(0).unwrap();
    assert_eq!(node.tags().len(), 1);
    for t in node.tags() {
        assert_eq!(t.v(), "good")
    }
}

#[test]
fn test_tag_filter_by_key_with_keep_matching() {
    let tag_filter = TagFilterByKey::new(
        OsmElementTypeSelection::all(),
        Pattern::new(".*good.*").unwrap(),
        FilterType::AcceptMatching,
    );
    let mut handled_nodes = vec![node_with_tags(vec![
        tag("bad", "hotzenplotz"),
        tag("good", "kasper"),
        tag("more-bad", "vader"),
        tag("more-good", "grandma"),
        tag("badest", "voldemort"),
    ])];
    tag_filter.filter_element_tags(&mut handled_nodes);
    assert_eq!(1, handled_nodes.len());
    let node = handled_nodes.get(0).unwrap();
    assert_eq!(node.tags().len(), 2);
    assert_eq!(node.tags()[0].k(), "good");
    assert_eq!(node.tags()[0].v(), "kasper");
    assert_eq!(node.tags()[1].k(), "more-good");
    assert_eq!(node.tags()[1].v(), "grandma");
}

#[test]
fn test_tag_filter_by_key_with_node_not_handled() {
    let mut tag_filter = TagFilterByKey::new(
        OsmElementTypeSelection::way_only(),
        Pattern::new(".*").unwrap(),
        FilterType::RemoveMatching,
    );
    let mut data = small_data();
    data.nodes.push(node_with_tags(vec![tag("a", "1"), tag("b", "2"), tag("c", "3")]));
    tag_filter.handle(&mut data);
    assert_eq!(1, data.nodes.len());
    assert_eq!(data.nodes[0].tags().len(), 3);
}

#[test]
fn test_tag_filter_by_key_with_node_handled() {
    let mut tag_filter = TagFilterByKey::new(
        OsmElementTypeSelection::all(),
        Pattern::new(".*").unwrap(),
        FilterType::RemoveMatching,
    );
    let mut data = small_data();
    data.nodes.push(node_with_tags(vec![tag("a", "1"), tag("b", "2"), tag("c", "3")]));
    tag_filter.handle(&mut data);
    assert_eq!(data.nodes.len(), 1);
    assert_eq!(data.nodes[0].tags().len(), 0);
}

#[test]
fn filter_elements_remove_by_keys() {
    let mut filter = TagKeyBasedOsmElementsFilter::new(
        OsmElementTypeSelection::all(),
        vec!["bad".to_string(), "ugly".to_string()],
        FilterType::RemoveMatching,
    );
    let mut result = small_data();

    result.nodes.push(node_with_tags(vec![tag("good", "1"), tag("bad", "2")]));
    filter.handle(&mut result);
    assert_eq!(result.nodes.len(), 0);

    result.clear_elements();
    result.nodes.push(node_with_tags(vec![tag("good", "1"), tag("nice", "2")]));
    filter.handle(&mut result);
    assert_eq!(result.nodes.len(), 1);

    result.clear_elements();
    result.nodes.push(node_with_tags(vec![tag("ugly", "1"), tag("bad", "2")]));
    filter.handle(&mut result);
    assert_eq!(result.nodes.len(), 0);
}

#[test]
fn filter_elements_accept_by_keys() {
    let mut filter = TagKeyBasedOsmElementsFilter::new(
        OsmElementTypeSelection::all(),
        vec!["bad".to_string(), "ugly".to_string()],
        FilterType::AcceptMatching,
    );
    let mut result = small_data();

    result.nodes.push(node_with_tags(vec![tag("good", "1"), tag("bad", "2")]));
    filter.handle(&mut result);
    assert_eq!(result.nodes.len(), 1);

    result.clear_elements();
    result.nodes.push(node_with_tags(vec![tag("good", "1"), tag("nice", "2")]));
    filter.handle(&mut result);
    assert_eq!(result.nodes.len(), 0);

    result.clear_elements();
    result.nodes.push(node_with_tags(vec![tag("ugly", "1"), tag("bad", "2")]));
    filter.handle(&mut result);
    assert_eq!(result.nodes.len(), 1);
}

fn handle_ways(filter: &mut ComplexElementsFilter, ways: Vec<Way>) -> usize {
    let mut data = small_data();
    data.ways = ways;
    filter.handle(&mut data);
    data.ways.len()
}

#[test]
fn complex_filter_with_ors_default() {
    let mut filter = ComplexElementsFilter::ors_default();
    assert_eq!(handle_ways(&mut filter, vec![way_with_tags(1, vec![tag("route", "xyz"), tag("railway", "platform"), tag("building", "x")])]), 1);
    assert_eq!(handle_ways(&mut filter, vec![way_with_tags(2, vec![tag("route", "xyz"), tag("building", "x")])]), 1);
    assert_eq!(handle_ways(&mut filter, vec![way_with_tags(3, vec![tag("railway", "platform"), tag("building", "x")])]), 1);
    assert_eq!(handle_ways(&mut filter, vec![way_with_tags(4, vec![tag("railway", "wrong-value"), tag("something", "else")])]), 1);
    assert_eq!(
        handle_ways(&mut filter, vec![way_with_tags(5, vec![tag("railway", "wrong-value"), tag("something", "else"), tag("building", "x")])]),
        0
    );
    assert_eq!(handle_ways(&mut filter, vec![way_with_tags(6, vec![tag("building", "x")])]), 0);
    assert_eq!(handle_ways(&mut filter, vec![way_with_tags(7, vec![tag("something", "x")])]), 1);
}

#[test]
fn complex_filter_passes_nodes_unchanged() {
    let mut filter = ComplexElementsFilter::ors_default();
    let mut data = small_data();
    data.nodes.push(node_with_tags(vec![tag("building", "x")]));
    filter.handle(&mut data);
    assert_eq!(data.nodes.len(), 1);
}

#[test]
fn tag_value_filter_accepts_and_removes_complementarily() {
    let accept = TagValueBasedOsmElementsFilter::new(
        OsmElementTypeSelection::node_only(),
        "name".to_string(),
        Pattern::new("^A").unwrap(),
        FilterType::AcceptMatching,
    );
    let remove = TagValueBasedOsmElementsFilter::new(
        OsmElementTypeSelection::node_only(),
        "name".to_string(),
        Pattern::new("^A").unwrap(),
        FilterType::RemoveMatching,
    );
    for tags in [vec![tag("name", "Anna")], vec![tag("name", "Bert")], vec![tag("other", "Anna")], vec![]] {
        assert_ne!(accept.accept_by_tags(&tags), remove.accept_by_tags(&tags));
    }
    assert!(accept.accept_by_tags(&vec![tag("name", "Anna")]));
    assert!(!accept.accept_by_tags(&vec![tag("other", "Anna")]));
}

#[test]
fn tag_filter_removes_unwanted_keys_of_the_second_pass() {
    let f = TagFilterByKey::new(OsmElementTypeSelection::all(), Pattern::new(TAGS_TO_REMOVE).unwrap(), FilterType::RemoveMatching);
    let mut tags = vec![tag("highway", "primary"), tag("note", "x"), tag("fixme", "y"), tag("name", "z")];
    f.filter_tags(&mut tags);
    let keys: Vec<&str> = tags.iter().map(|t| t.k().as_str()).collect();
    assert_eq!(keys, vec!["highway", "name"]);
}

#[test]
fn invalid_pattern_is_refused() {
    assert!(Pattern::new("(unclosed").is_none());
    assert_eq!(Pattern::new("a+").unwrap().as_str(), "a+");
}

#[test]
fn has_one_of_tag_keys_predicate_with_only_matching_tags() {
    let predicate = HasOneOfTagKeysPredicate { keys: vec!["good".to_string(), "nice".to_string()] };
    assert_eq!(true, predicate.test(&vec![tag("good", "1")]));
}

#[test]
fn has_one_of_tag_keys_predicate_with_only_all_matching_tags() {
    let predicate = HasOneOfTagKeysPredicate { keys: vec!["good".to_string(), "nice".to_string()] };
    assert_eq!(true, predicate.test(&vec![tag("good", "1"), tag("nice", "2")]));
}

#[test]
fn has_one_of_tag_keys_predicate_with_also_matching_tags() {
    let predicate = HasOneOfTagKeysPredicate { keys: vec!["good".to_string(), "nice".to_string()] };
    assert_eq!(true, predicate.test(&vec![tag("good", "1"), tag("bad", "2")]));
}

#[test]
fn has_one_of_tag_keys_predicate_with_no_matching_tags() {
    let predicate = HasOneOfTagKeysPredicate { keys: vec!["good".to_string(), "nice".to_string()] };
    assert_eq!(false, predicate.test(&vec![tag("ugly", "1"), tag("bad", "2")]));
}

fn good_nice_predicate() -> HasTagKeyValuePredicate {
    let mut key_values = StringMap::new();
    key_values.insert("good".to_string(), "good".to_string());
    key_values.insert("nice".to_string(), "nice".to_string());
    HasTagKeyValuePredicate { key_values }
}

#[test]
fn has_tag_key_value_predicate_with_no_matching_tag() {
    let predicate = good_nice_predicate();
    assert_eq!(false, predicate.test(&vec![tag("bad", "1"), tag("ugly", "1")]));
}

#[test]
fn has_tag_key_value_predicate_with_only_tag_with_wrong_value() {
    let predicate = good_nice_predicate();
    assert_eq!(false, predicate.test(&vec![tag("good", "1")]));
}

#[test]
fn has_tag_key_value_predicate_with_also_tag_with_wrong_value() {
    let predicate = good_nice_predicate();
    assert_eq!(true, predicate.test(&vec![tag("bad", "1"), tag("good", "1"), tag("nice", "nice")]));
}

#[test]
fn has_tag_key_value_predicate_with_only_tag_with_matching_value() {
    let predicate = good_nice_predicate();
    assert_eq!(true, predicate.test(&vec![tag("good", "good")]));
}

#[test]
fn has_tag_key_value_predicate_with_also_tag_with_matching_value() {
    let predicate = good_nice_predicate();
    assert_eq!(true, predicate.test(&vec![tag("bad", "1"), tag("good", "good")]));
}

#[test]
fn has_none_of_tag_keys_predicate_with_only_non_matching_tag() {
    let predicate = HasNoneOfTagKeysPredicate { keys: vec!["bad".to_string(), "ugly".to_string()] };
    assert_eq!(true, predicate.test(&vec![tag("good", "1")]));
}

#[test]
fn has_none_of_tag_keys_predicate_also_matching_tag() {
    let predicate = HasNoneOfTagKeysPredicate { keys: vec!["bad".to_string(), "ugly".to_string()] };
    assert_eq!(false, predicate.test(&vec![tag("good", "1"), tag("bad", "1")]));
}

#[test]
fn has_none_of_tag_keys_predicate_only_matching_tags() {
    let predicate = HasNoneOfTagKeysPredicate { keys: vec!["bad".to_string(), "ugly".to_string()] };
    assert_eq!(false, predicate.test(&vec![tag("ugly", "1"), tag("bad", "1")]));
}

#[test]
fn has_only_matching_keys_predicate_with_only_matching_tags() {
    let predicate = HasOnlyMatchingTagsPredicate { key_regex: Pattern::new(".*good|nice").unwrap() };
    assert_eq!(true, predicate.test(&vec![tag("good", "1"), tag("nice", "2"), tag("very-good", "3")]));
}

#[test]
fn has_only_matching_keys_predicate_with_only_non_matching_tags() {
    let predicate = HasOnlyMatchingTagsPredicate { key_regex: Pattern::new(".*good|nice").unwrap() };
    assert_eq!(false, predicate.test(&vec![tag("kasperl", "1"), tag("seppl", "2")]));
}

#[test]
fn has_only_matching_keys_predicate_with_matching_and_non_matching_tags() {
    let predicate = HasOnlyMatchingTagsPredicate { key_regex: Pattern::new(".*good|nice").unwrap() };
    assert_eq!(false, predicate.test(&vec![tag("kasperl", "1"), tag("seppl", "2"), tag("nice", "3")]));
}

#[test]
fn tag_filters_keep_and_remove_split_the_tags() {
    let keep = TagFilterByKey::new(OsmElementTypeSelection::all(), Pattern::new("^name").unwrap(), FilterType::AcceptMatching);
    let remove = TagFilterByKey::new(OsmElementTypeSelection::all(), Pattern::new("^name").unwrap(), FilterType::RemoveMatching);
    let all = vec![tag("name", "a"), tag("highway", "b"), tag("name:de", "c"), tag("ref", "d")];
    let mut kept = all.clone();
    keep.filter_tags(&mut kept);
    let mut removed = all.clone();
    remove.filter_tags(&mut removed);
    assert_eq!(kept, vec![tag("name", "a"), tag("name:de", "c")]);
    assert_eq!(removed, vec![tag("highway", "b"), tag("ref", "d")]);
    assert_eq!(kept.len() + removed.len(), all.len());
}

#[test]
fn routing_filter_twice_keeps_what_once_kept() {
    let filter = ComplexElementsFilter::ors_default();
    let mut data = small_data();
    data.ways.push(way_with_tags(1, vec![tag("highway", "primary")]));
    data.ways.push(way_with_tags(2, vec![tag("building", "yes")]));
    data.ways.push(way_with_tags(3, vec![tag("route", "ferry")]));
    filter.filter(&mut data);
    let once: Vec<i64> = data.ways.iter().map(|w| w.id).collect();
    filter.filter(&mut data);
    let twice: Vec<i64> = data.ways.iter().map(|w| w.id).collect();
    assert_eq!(once, twice);
    assert!(!once.contains(&2));
}

#[test]
fn routing_filter_keeps_the_same_ways_with_and_without_metadata() {
    let filter = ComplexElementsFilter::ors_default();
    let ways = vec![
        way_with_tags(1, vec![tag("highway", "primary")]),
        way_with_tags(2, vec![tag("building", "yes")]),
        way_with_tags(5, vec![tag("railway", "wrong-value"), tag("something", "else"), tag("building", "x")]),
        way_with_tags(6, vec![tag("railway", "platform"), tag("building", "x")]),
    ];
    let mut with_metadata = small_data();
    with_metadata.ways = ways.clone();
    let mut without_metadata = small_data();
    without_metadata.ways = ways;
    for w in without_metadata.ways.iter_mut() {
        w.remove_metadata();
    }
    filter.filter(&mut with_metadata);
    filter.filter(&mut without_metadata);
    let a: Vec<i64> = with_metadata.ways.iter().map(|w| w.id).collect();
    let b: Vec<i64> = without_metadata.ways.iter().map(|w| w.id).collect();
    assert_eq!(a, vec![1, 6]);
    assert_eq!(a, b);
    assert!(without_metadata.ways.iter().all(|w| w.version == 0 && w.user.is_empty()));
}
