use std::collections::HashMap;

use rusty_routes_transformer::area::{cell_change, grid_index, join_with_comma, CellShape, CountryTagger, AREA_ID_MULTIPLE, GRID_SIZE};
use rusty_routes_transformer::buffer_pool::BufferPool;
use rusty_routes_transformer::describe::fixed7_string;
use rusty_routes_transformer::elevation::BufferingElevationEnricher;
use rusty_routes_transformer::handler::HandlerData;
use rusty_routes_transformer::model::{Node, Tag};
use rusty_routes_transformer::pmtiles::{
    extract_tiles_map, lookup_zooms, make_tile_key, parse_tile_name, parse_u32_str, split_fields, starts_with_planet,
    LookupStep, PMTilesLookups, TileArchive,
};
use rusty_routes_transformer::strmap::StringMap;
use rusty_routes_transformer::text::{i64_to_plus_string, i64_to_string, pad_left_string, replace_char_string, u64_to_string};

fn node_at(id: i64, lat7: i64, lon7: i64) -> Node {
    Node::new(id, 1, lat7, lon7, 1, 1, 1, "a".to_string(), true, vec![])
}

fn ids_of(nodes: &Vec<Node>) -> Vec<i64> {
    let mut ids: Vec<i64> = nodes.iter().map(|n| n.id).collect();
    ids.sort();
    ids
}

#[test]
fn buffer_pool_flushes_a_buffer_at_the_batch_size() {
    let mut pool: BufferPool<i64> = BufferPool::new(3);
    assert!(pool.add(1, 10).is_none());
    assert!(pool.add(2, 20).is_none());
    assert!(pool.add(1, 11).is_none());
    let batch = pool.add(1, 12).expect("buffer 1 is full");
    assert_eq!(batch.key, 1);
    assert_eq!(batch.items, vec![10, 11, 12]);
    assert_eq!(pool.buffer_count(), 1);
    assert_eq!(pool.total_items(), 1);
    let rest = pool.drain_all();
    assert_eq!(rest.len(), 1);
    assert_eq!(rest[0].key, 2);
    assert_eq!(rest[0].items, vec![20]);
    assert_eq!(pool.buffer_count(), 0);
    assert_eq!(pool.total_items(), 0);
}

#[test]
fn buffer_pool_flushes_the_largest_buffer_at_the_total_limit() {
    let mut pool: BufferPool<i64> = BufferPool::new(10);
    let (full, largest) = pool.add_limited(1, 10, 3);
    assert!(full.is_none() && largest.is_none());
    let (full, largest) = pool.add_limited(2, 20, 3);
    assert!(full.is_none() && largest.is_none());
    let (full, largest) = pool.add_limited(2, 21, 3);
    assert!(full.is_none());
    let largest = largest.expect("three items reach the limit");
    assert_eq!(largest.key, 2);
    assert_eq!(largest.items, vec![20, 21]);
    assert_eq!(pool.total_items(), 1);
}

#[test]
fn buffer_pool_full_and_largest_in_one_add() {
    let mut pool: BufferPool<i64> = BufferPool::new(2);
    let _ = pool.add_limited(1, 10, 3);
    let _ = pool.add_limited(2, 20, 3);
    let (full, largest) = pool.add_limited(1, 11, 3);
    let full = full.expect("buffer 1 reached the batch size");
    assert_eq!(full.items, vec![10, 11]);
    assert!(largest.is_none());
    let _ = pool.add_limited(3, 30, 3);
    let (full, largest) = pool.add_limited(4, 40, 3);
    assert!(full.is_none());
    assert_eq!(largest.expect("limit reached").items.len(), 1);
    assert_eq!(pool.total_items(), 2);
}

#[test]
fn buffering_elevation_enricher_buffers_and_flushes() {
    let limburg: u128 = 1;
    let hd_ma: u128 = 2;
    let mut enricher = BufferingElevationEnricher::new(4, 5);
    for (id, tile) in [(1, limburg), (20, hd_ma), (21, hd_ma), (2, limburg), (3, limburg)] {
        let step = enricher.buffer_node(node_at(id, 1, 1), Some(tile));
        assert!(step.passthrough.is_none());
        assert!(step.batch.is_none());
    }
    let step = enricher.buffer_node(node_at(4, 1, 1), Some(limburg));
    let batch = step.batch.expect("the limburg buffer is full");
    assert_eq!(batch.key, limburg);
    assert_eq!(ids_of(&batch.items), vec![1, 2, 3, 4]);

    let rest = enricher.flush_all();
    assert_eq!(rest.len(), 1);
    assert_eq!(rest[0].key, hd_ma);
    assert_eq!(ids_of(&rest[0].items), vec![20, 21]);

    assert!(enricher.buffer_node(node_at(10, 1, 1), Some(limburg)).batch.is_none());
    assert!(enricher.buffer_node(node_at(22, 1, 1), Some(hd_ma)).batch.is_none());
    assert!(enricher.buffer_node(node_at(5, 1, 1), Some(limburg)).batch.is_none());
    let rest = enricher.flush_all();
    let mut all: Vec<Node> = Vec::new();
    for b in rest {
        all.extend(b.items);
    }
    assert_eq!(ids_of(&all), vec![5, 10, 22]);
}

#[test]
fn buffering_elevation_enricher_passes_uncovered_nodes() {
    let mut enricher = BufferingElevationEnricher::default();
    let step = enricher.buffer_node(node_at(7, 1, 1), None);
    assert_eq!(step.passthrough.expect("passes through").id, 7);
    assert!(step.batch.is_none());
    assert_eq!(enricher.max_buffered_nodes, 5_000_000);
}

#[test]
fn elevation_tag_is_added_only_when_found() {
    let enricher = BufferingElevationEnricher::new(4, 5);
    let mut node = node_at(1, 1, 1);
    node.tags.push(Tag::new("name".to_string(), "x".to_string()));
    enricher.add_elevation_tag(&mut node, Some("123".to_string()));
    assert_eq!(node.tags.len(), 2);
    assert_eq!(node.tags[1].k, "ele");
    assert_eq!(node.tags[1].v, "123");
    let before = node.clone();
    enricher.add_elevation_tag(&mut node, None);
    assert_eq!(node, before);
}

#[test]
fn pmtiles_archive_names_give_their_tile() {
    assert_eq!(parse_tile_name("6-33-21.pmtiles"), Some((33, 21)));
    assert_eq!(parse_tile_name("6-+5-7.pmtiles"), Some((5, 7)));
    assert_eq!(parse_tile_name("6-1-2"), Some((1, 2)));
    assert_eq!(parse_tile_name("bad.pmtiles"), None);
    assert_eq!(parse_tile_name("a-1-x.pmtiles"), None);
    assert_eq!(parse_tile_name("a-1-.pmtiles"), None);
}

#[test]
fn pmtiles_numbers_parse_as_u32() {
    assert_eq!(parse_u32_str("4294967295"), Some(4294967295));
    assert_eq!(parse_u32_str("4294967296"), None);
    assert_eq!(parse_u32_str("+12"), Some(12));
    assert_eq!(parse_u32_str("007"), Some(7));
    assert_eq!(parse_u32_str(""), None);
    assert_eq!(parse_u32_str("+"), None);
    assert_eq!(parse_u32_str("-1"), None);
    assert_eq!(parse_u32_str("1a"), None);
}

#[test]
fn pmtiles_fields_split_like_str_split() {
    assert_eq!(split_fields("a-b--c", '-'), vec!["a", "b", "", "c"]);
    assert_eq!(split_fields("", '-'), vec![""]);
    assert!(starts_with_planet("planet.pmtiles"));
    assert!(!starts_with_planet("plane"));
}

#[test]
fn pmtiles_tiles_map_skips_the_planet_archive() {
    let items = vec![
        TileArchive { name: "planet.pmtiles".to_string(), max_zoom: 12 },
        TileArchive { name: "6-33-21.pmtiles".to_string(), max_zoom: 14 },
        TileArchive { name: "6-1-2.pmtiles".to_string(), max_zoom: 13 },
    ];
    let map = extract_tiles_map(&items, "mapterhorn/0.0.8/").expect("all names are readable");
    assert_eq!(map.len(), 2);
    let info = map.get(&make_tile_key(6, 33, 21)).expect("hd archive");
    assert_eq!(info.z_max, 14);
    assert_eq!(info.key, "mapterhorn/0.0.8/6-33-21.pmtiles");
    assert_eq!(map.get(&make_tile_key(6, 1, 2)).expect("x archive").z_max, 13);

    let bad = vec![TileArchive { name: "broken.pmtiles".to_string(), max_zoom: 12 }];
    assert!(extract_tiles_map(&bad, "p/").is_none());
}

#[test]
fn pmtiles_lookup_zooms_go_down_to_13() {
    assert_eq!(lookup_zooms(16), vec![16, 15, 14, 13]);
    assert_eq!(lookup_zooms(13), vec![13]);
    assert_eq!(lookup_zooms(12), Vec::<u8>::new());
}

#[test]
fn pmtiles_tile_keys_tell_tiles_apart() {
    assert_ne!(make_tile_key(6, 1, 2), make_tile_key(6, 2, 1));
    assert_ne!(make_tile_key(6, 1, 2), make_tile_key(7, 1, 2));
    assert_eq!(make_tile_key(0, 0, 5), 5);
}

#[test]
fn pmtiles_lookups_remember_missing_tiles_and_count() {
    let items = vec![TileArchive { name: "6-33-21.pmtiles".to_string(), max_zoom: 14 }];
    let map = extract_tiles_map(&items, "").unwrap();
    let mut lookups = PMTilesLookups::new(map, 100, 1000);
    assert_eq!(lookups.zoom_for_tile(33, 21), 14);
    assert_eq!(lookups.zoom_for_tile(1, 1), 12);
    assert!(lookups.should_fetch(14, 100, 200));
    lookups.record_missing_tile(14, 100, 200);
    assert!(!lookups.should_fetch(14, 100, 200));
    assert!(lookups.should_fetch(13, 100, 200));
    lookups.record_found();
    lookups.record_found();
    lookups.record_not_found();
    let mut data = HandlerData::with_capacity(8, 8, 8);
    lookups.close(&mut data);
    assert_eq!(data.elevation_found_node_count, 2);
    assert_eq!(data.elevation_not_found_node_count, 1);
    assert_eq!(data.elevation_not_relevant_node_count, 0);
}

#[test]
fn pmtiles_buffers_flush_at_thresholds() {
    let mut lookups = PMTilesLookups::new(HashMap::new(), 2, 3);
    assert!(lookups.buffer_node(node_at(1, 1, 1), 33, 21).is_empty());
    let due = lookups.buffer_node(node_at(2, 1, 1), 33, 21);
    assert_eq!(due.len(), 1);
    assert_eq!(ids_of(&due[0].items), vec![1, 2]);
    assert!(lookups.buffer_node(node_at(3, 1, 1), 1, 1).is_empty());
    assert!(lookups.buffer_node(node_at(4, 1, 1), 1, 2).is_empty());
    let due = lookups.buffer_node(node_at(5, 1, 1), 1, 3);
    assert_eq!(due.len(), 1);
    assert_eq!(due[0].items.len(), 1);
    let rest = lookups.flush_buffers();
    assert_eq!(rest.len(), 2);
}

#[test]
fn area_grid_index_truncates_toward_zero() {
    assert_eq!(grid_index(0, 0), Some(32580));
    assert_eq!(grid_index(-5_000_000, -5_000_000), Some(32580));
    assert_eq!(grid_index(494_000_000, 86_933_000), Some(50228));
    assert_eq!(grid_index(-899_999_999, -1_799_999_999), Some(361));
    assert_eq!(grid_index(900_000_000, 0), None);
    assert_eq!(grid_index(-900_000_000, 0), None);
}

#[test]
fn area_cell_change_cases() {
    let c = cell_change(0, 3, true, false);
    assert_eq!(c.value, 3);
    assert!(c.added.is_empty());
    let c = cell_change(0, 3, false, true);
    assert_eq!(c.value, 0);
    assert!(c.added.is_empty());
    let c = cell_change(5, 3, true, false);
    assert_eq!(c.value, AREA_ID_MULTIPLE);
    assert_eq!(c.added.len(), 2);
    assert!(c.added[0].0 == 5 && c.added[0].1 == CellShape::WholeTile);
    assert!(c.added[1].0 == 3 && c.added[1].1 == CellShape::Intersection);
    let c = cell_change(AREA_ID_MULTIPLE, 3, false, false);
    assert_eq!(c.value, AREA_ID_MULTIPLE);
    assert_eq!(c.added.len(), 1);
    assert!(c.added[0].0 == 3 && c.added[0].1 == CellShape::Intersection);
}

#[test]
fn area_tagger_tags_nodes_with_their_countries() {
    let mut index = vec![0u16; GRID_SIZE];
    index[50228] = 3;
    index[32580] = AREA_ID_MULTIPLE;
    let mut ids = HashMap::new();
    ids.insert(3u16, "DE".to_string());
    ids.insert(4u16, "FR".to_string());
    let mut tagger = CountryTagger::new(index, ids);

    let mut n = node_at(1, 494_000_000, 86_933_000);
    tagger.tag_node(&mut n, &vec![]);
    assert_eq!(n.tags, vec![Tag::new("country".to_string(), "DE".to_string())]);

    let mut m = node_at(2, 1, 1);
    tagger.tag_node(&mut m, &vec![3, 4]);
    assert_eq!(m.tags, vec![Tag::new("country".to_string(), "DE,FR".to_string())]);

    let mut o = node_at(3, 100_000_000, 100_000_000);
    tagger.tag_node(&mut o, &vec![]);
    assert!(o.tags.is_empty());

    let mut pole = node_at(4, 900_000_000, 0);
    tagger.tag_node(&mut pole, &vec![]);
    assert!(pole.tags.is_empty());

    assert_eq!(tagger.country_found_node_count, 2);
    assert_eq!(tagger.country_not_found_node_count, 1);
    let mut data = HandlerData::with_capacity(8, 8, 8);
    tagger.record(&mut data);
    assert_eq!(data.country_found_node_count, 2);
    assert_eq!(data.country_not_found_node_count, 1);
    assert_eq!(tagger.cell_value(494_000_000, 86_933_000), Some(3));
    assert_eq!(tagger.cell_value(900_000_000, 0), None);
}

#[test]
fn area_ids_join_with_commas() {
    assert_eq!(join_with_comma(&vec![]), "");
    assert_eq!(join_with_comma(&vec!["a".to_string()]), "a");
    assert_eq!(join_with_comma(&vec!["a".to_string(), "b".to_string(), "c".to_string()]), "a,b,c");
}

#[test]
fn coordinates_are_written_without_trailing_zeros() {
    assert_eq!(fixed7_string(-5_000_000), "-0.5");
    assert_eq!(fixed7_string(490_000_000), "49");
    assert_eq!(fixed7_string(86_933_000), "8.6933");
    assert_eq!(fixed7_string(1), "0.0000001");
    assert_eq!(fixed7_string(0), "0");
}

#[test]
fn string_map_inserts_and_replaces() {
    let mut m = StringMap::new();
    assert_eq!(m.len(), 0);
    m.insert("a".to_string(), "1".to_string());
    m.insert("b".to_string(), "2".to_string());
    m.insert("a".to_string(), "3".to_string());
    assert_eq!(m.len(), 2);
    assert_eq!(m.get("a"), Some(&"3".to_string()));
    assert_eq!(m.get("b"), Some(&"2".to_string()));
    assert_eq!(m.get("c"), None);
    assert_eq!(m.entries()[0].0, "a");
    m.clear();
    assert_eq!(m.len(), 0);
}

#[test]
fn integers_render_in_decimal() {
    assert_eq!(u64_to_string(0), "0");
    assert_eq!(u64_to_string(18446744073709551615), "18446744073709551615");
    assert_eq!(i64_to_string(-12), "-12");
    assert_eq!(i64_to_string(i64::MIN), "-9223372036854775808");
    assert_eq!(i64_to_plus_string(5), "+5");
    assert_eq!(i64_to_plus_string(0), "+0");
    assert_eq!(i64_to_plus_string(-5), "-5");
    assert_eq!(pad_left_string("7", 3, '0'), "007");
    assert_eq!(pad_left_string("1234", 3, '0'), "1234");
    assert_eq!(replace_char_string("a_b_c", '_', "__"), "a__b__c");
}

#[test]
fn pmtiles_lookups_skip_missing_tiles_when_choosing_the_next_fetch() {
    let mut lookups = PMTilesLookups::new(HashMap::new(), 10, 100);
    let candidates = vec![(15u8, 100u32, 200u32), (14, 50, 100), (13, 25, 50)];
    assert_eq!(lookups.next_fetchable(&candidates, 0), Some(0));
    lookups.record_fetch(15, 100, 200, false);
    assert_eq!(lookups.next_fetchable(&candidates, 0), Some(1));
    lookups.record_fetch(14, 50, 100, false);
    lookups.record_fetch(13, 25, 50, false);
    assert_eq!(lookups.next_fetchable(&candidates, 0), None);
    assert_eq!(lookups.next_fetchable(&candidates, 7), None);
    lookups.record_fetch(12, 1, 1, true);
    assert_eq!(lookups.ele_lookups_successful, 1);
    assert!(lookups.should_fetch(12, 1, 1));
}

#[test]
fn pmtiles_lookup_steps_walk_the_zooms_and_skip_known_missing_tiles() {
    let mut lookups = PMTilesLookups::new(HashMap::new(), 10, 100);
    let candidates = vec![(15u8, 100u32, 200u32), (14, 50, 100), (13, 25, 50)];

    assert!(matches!(lookups.lookup_start(&candidates), LookupStep::Fetch(0)));
    let mut node = node_at(1, 1, 1);
    assert!(matches!(lookups.lookup_step(&candidates, 0, None, &mut node), LookupStep::Fetch(1)));
    assert!(node.tags.is_empty());
    assert!(matches!(lookups.lookup_step(&candidates, 1, Some("97".to_string()), &mut node), LookupStep::Found));
    assert_eq!(node.tags.len(), 1);
    assert_eq!(node.tags[0].k, "ele");
    assert_eq!(node.tags[0].v, "97");
    assert_eq!(lookups.ele_lookups_successful, 1);
    assert_eq!(lookups.ele_lookups_failed, 0);
    assert!(!lookups.should_fetch(15, 100, 200));
    assert!(lookups.should_fetch(14, 50, 100));

    assert!(matches!(lookups.lookup_start(&candidates), LookupStep::Fetch(1)));
    let mut other = node_at(2, 1, 1);
    assert!(matches!(lookups.lookup_step(&candidates, 1, None, &mut other), LookupStep::Fetch(2)));
    assert!(matches!(lookups.lookup_step(&candidates, 2, None, &mut other), LookupStep::NotFound));
    assert!(other.tags.is_empty());
    assert_eq!(lookups.ele_lookups_successful, 1);
    assert_eq!(lookups.ele_lookups_failed, 1);

    assert!(matches!(lookups.lookup_start(&candidates), LookupStep::NotFound));
    assert_eq!(lookups.ele_lookups_failed, 2);
}

#[test]
fn buffering_then_flushing_hands_back_every_node_once() {
    let mut enricher = BufferingElevationEnricher::new(2, 10);
    let input: Vec<(i64, Option<u128>)> =
        vec![(1, Some(7)), (2, None), (3, Some(8)), (4, Some(7)), (5, Some(8)), (6, Some(9)), (7, None)];
    let mut out: Vec<Node> = Vec::new();
    for (id, tile) in input {
        let step = enricher.buffer_node(node_at(id, 1, 1), tile);
        if let Some(n) = step.passthrough {
            out.push(n);
        }
        if let Some(b) = step.batch {
            out.extend(b.items);
        }
    }
    for b in enricher.flush_all() {
        out.extend(b.items);
    }
    assert_eq!(ids_of(&out), vec![1, 2, 3, 4, 5, 6, 7]);
}

#[test]
fn buffer_nodes_and_flush_hands_back_every_node_in_steps_and_batches() {
    let mut enricher = BufferingElevationEnricher::new(2, 10);
    let nodes: Vec<Node> = (1..=7).map(|id| node_at(id, 1, 1)).collect();
    let tiles = vec![Some(7u128), None, Some(8), Some(7), Some(8), Some(9), None];
    let (steps, rest) = enricher.buffer_nodes_and_flush(nodes, &tiles);
    assert_eq!(steps.len(), 7);
    let mut out: Vec<Node> = Vec::new();
    let mut passed: Vec<i64> = Vec::new();
    for step in steps {
        if let Some(n) = step.passthrough {
            passed.push(n.id);
            out.push(n);
        }
        if let Some(b) = step.batch {
            out.extend(b.items);
        }
    }
    assert_eq!(passed, vec![2, 7]);
    assert_eq!(rest.len(), 1);
    assert_eq!(rest[0].key, 9);
    for b in rest {
        out.extend(b.items);
    }
    assert_eq!(ids_of(&out), vec![1, 2, 3, 4, 5, 6, 7]);
    assert!(enricher.flush_all().is_empty());
}
