//! Marks the nodes of bridges, tunnels and the like, whose elevation must not
//! be taken from the terrain.

use vstd::prelude::*;
use crate::bits::{bit_contents, set_bits_for_ids, with_bits_set, id_set, ids_in_range, lemma_with_bits_set_union};
use crate::handler::{Handler, HandlerData};
use crate::model::{Tag, Way};
use crate::predicate::{contains_key, key_in};
use crate::strmap::str_eq;

verus! {

/// Some tag has one of `keys` as key and a value other than `no`.
pub open spec fn skips_elevation(keys: Seq<String>, tags: Seq<Tag>) -> bool {
    exists|i: int| 0 <= i < tags.len() && key_in(keys, #[trigger] tags[i].k@) && tags[i].v@ != "no"@
}

/// The node ids referenced by the ways of `ways` that skip elevation.
pub open spec fn skipped_node_ids(keys: Seq<String>, ways: Seq<Way>) -> Set<int> {
    Set::new(|k: int| exists|i: int| 0 <= i < ways.len() && skips_elevation(keys, ways[i].tags@)
        && #[trigger] id_set(ways[i].refs@).contains(k))
}

/// Every node that a way skipping elevation references has a bit in a set of length `len`.
pub open spec fn skipped_refs_in_range(keys: Seq<String>, ways: Seq<Way>, len: nat) -> bool {
    forall|i: int| 0 <= i < ways.len() ==> (skips_elevation(keys, #[trigger] ways[i].tags@) ==> ids_in_range(ways[i].refs@, len))
}

/// Collects the nodes of ways tagged with one of the keys (unless the value
/// is `no`) in `no_elevation_node_ids`.
pub struct SkipElevationNodeCollector {
    pub no_elevation_keys: Vec<String>,
}

impl SkipElevationNodeCollector {
    /// The keys that mark a way whose nodes get no elevation by default.
    pub fn default_keys() -> (keys: Vec<&'static str>)
        ensures
            keys@.map_values(|k: &str| k@) == seq!["bridge"@, "tunnel"@, "cutting"@, "indoor"@],
    {
        let mut keys: Vec<&'static str> = Vec::new();
        keys.push("bridge");
        keys.push("tunnel");
        keys.push("cutting");
        keys.push("indoor");
        assert(keys@.map_values(|k: &str| k@) =~= seq!["bridge"@, "tunnel"@, "cutting"@, "indoor"@]);
        keys
    }

    pub fn new(no_elevation_keys: Vec<&str>) -> (c: Self)
        ensures
            c.no_elevation_keys@.map_values(|s: String| s@) == no_elevation_keys@.map_values(|k: &str| k@),
    {
        let mut keys: Vec<String> = Vec::new();
        let n = no_elevation_keys.len();
        let mut i: usize = 0;
        while i < n
            invariant
                n == no_elevation_keys@.len(),
                i <= n,
                keys@.map_values(|s: String| s@) == no_elevation_keys@.take(i as int).map_values(|k: &str| k@),
            decreases n - i,
        {
            let key: &str = no_elevation_keys[i];
            let owned = key.to_owned();
            assert(owned@ == no_elevation_keys@[i as int]@);
            let ghost k0 = keys@;
            keys.push(owned);
            proof {
                assert(keys@.map_values(|s: String| s@) =~= k0.map_values(|s: String| s@).push(owned@));
                assert(no_elevation_keys@.take(i + 1).map_values(|k: &str| k@)
                    =~= no_elevation_keys@.take(i as int).map_values(|k: &str| k@).push(no_elevation_keys@[i as int]@));
            }
            i = i + 1;
        }
        assert(no_elevation_keys@.take(n as int) =~= no_elevation_keys@);
        Self { no_elevation_keys: keys }
    }

    /// A collector for bridges, tunnels, cuttings and indoor ways.
    pub fn default() -> (c: Self)
        ensures
            c.no_elevation_keys@.map_values(|s: String| s@) == seq!["bridge"@, "tunnel"@, "cutting"@, "indoor"@],
    {
        Self::new(Self::default_keys())
    }

    /// Whether the nodes of `way` get no elevation.
    pub fn skip_elevation(&self, way: &Way) -> (b: bool)
        ensures
            b == skips_elevation(self.no_elevation_keys@, way.tags@),
    {
        let n = way.tags.len();
        let mut i: usize = 0;
        while i < n
            invariant
                n == way.tags@.len(),
                i <= n,
                forall|j: int| 0 <= j < i ==> !(key_in(self.no_elevation_keys@, #[trigger] way.tags@[j].k@)
                    && way.tags@[j].v@ != "no"@),
            decreases n - i,
        {
            if contains_key(&self.no_elevation_keys, way.tags[i].k.as_str()) && !str_eq(way.tags[i].v.as_str(), "no") {
                return true;
            }
            i = i + 1;
        }
        false
    }

    /// Marks the nodes of the ways in flight that skip elevation.
    pub fn collect(&self, data: &mut HandlerData)
        requires
            skipped_refs_in_range(self.no_elevation_keys@, old(data).ways@, bit_contents(old(data).no_elevation_node_ids).len()),
        ensures
            bit_contents(final(data).no_elevation_node_ids) == with_bits_set(
                bit_contents(old(data).no_elevation_node_ids),
                skipped_node_ids(self.no_elevation_keys@, old(data).ways@),
            ),
            *final(data) == (HandlerData { no_elevation_node_ids: final(data).no_elevation_node_ids, ..*old(data) }),
    {
        let ghost b0 = bit_contents(data.no_elevation_node_ids);
        let ghost len = b0.len();
        let ghost keys = self.no_elevation_keys@;
        let n = data.ways.len();
        let mut i: usize = 0;
        assert(skipped_node_ids(keys, data.ways@.take(0)) =~= Set::<int>::empty());
        assert(with_bits_set(b0, Set::<int>::empty()) =~= b0);
        while i < n
            invariant
                n == data.ways@.len(),
                i <= n,
                keys == self.no_elevation_keys@,
                *data == (HandlerData { no_elevation_node_ids: data.no_elevation_node_ids, ..*old(data) }),
                skipped_refs_in_range(keys, data.ways@, len),
                b0 == bit_contents(old(data).no_elevation_node_ids),
                len == b0.len(),
                bit_contents(data.no_elevation_node_ids) == with_bits_set(b0, skipped_node_ids(keys, data.ways@.take(i as int))),
            decreases n - i,
        {
            let ghost done = skipped_node_ids(keys, data.ways@.take(i as int));
            let ghost next = skipped_node_ids(keys, data.ways@.take(i + 1));
            if self.skip_elevation(&data.ways[i]) {
                assert(ids_in_range(data.ways@[i as int].refs@, len));
                set_bits_for_ids(&mut data.no_elevation_node_ids, &data.ways[i].refs);
                proof {
                    let r = id_set(data.ways@[i as int].refs@);
                    lemma_with_bits_set_union(b0, done, r);
                    assert forall|k: int| next.contains(k) <==> done.union(r).contains(k) by {
                        if next.contains(k) {
                            let c = choose|c: int| 0 <= c < i + 1 && skips_elevation(keys, data.ways@.take(i + 1)[c].tags@)
                                && #[trigger] id_set(data.ways@.take(i + 1)[c].refs@).contains(k);
                            if c < i {
                                assert(data.ways@.take(i as int)[c] == data.ways@.take(i + 1)[c]);
                            }
                        }
                        if done.contains(k) {
                            let c = choose|c: int| 0 <= c < i && skips_elevation(keys, data.ways@.take(i as int)[c].tags@)
                                && #[trigger] id_set(data.ways@.take(i as int)[c].refs@).contains(k);
                            assert(data.ways@.take(i + 1)[c] == data.ways@.take(i as int)[c]);
                        }
                        if r.contains(k) {
                            assert(data.ways@.take(i + 1)[i as int] == data.ways@[i as int]);
                        }
                    }
                    assert(next =~= done.union(r));
                }
            } else {
                proof {
                    assert forall|k: int| next.contains(k) <==> done.contains(k) by {
                        if next.contains(k) {
                            let c = choose|c: int| 0 <= c < i + 1 && skips_elevation(keys, data.ways@.take(i + 1)[c].tags@)
                                && #[trigger] id_set(data.ways@.take(i + 1)[c].refs@).contains(k);
                            if c < i {
                                assert(data.ways@.take(i as int)[c] == data.ways@.take(i + 1)[c]);
                            } else {
                                assert(data.ways@.take(i + 1)[c] == data.ways@[i as int]);
                            }
                        }
                        if done.contains(k) {
                            let c = choose|c: int| 0 <= c < i && skips_elevation(keys, data.ways@.take(i as int)[c].tags@)
                                && #[trigger] id_set(data.ways@.take(i as int)[c].refs@).contains(k);
                            assert(data.ways@.take(i + 1)[c] == data.ways@.take(i as int)[c]);
                        }
                    }
                    assert(next =~= done);
                }
            }
            i = i + 1;
        }
        assert(data.ways@.take(n as int) =~= data.ways@);
    }

    /// Whether every node `collect` would mark has a bit.
    pub fn refs_fit(&self, data: &HandlerData) -> (b: bool)
        ensures
            b == skipped_refs_in_range(self.no_elevation_keys@, data.ways@, bit_contents(data.no_elevation_node_ids).len()),
    {
        let len = crate::bits::bits_len(&data.no_elevation_node_ids);
        let n = data.ways.len();
        let mut i: usize = 0;
        while i < n
            invariant
                n == data.ways@.len(),
                i <= n,
                len == bit_contents(data.no_elevation_node_ids).len(),
                forall|a: int| 0 <= a < i ==> (skips_elevation(self.no_elevation_keys@, #[trigger] data.ways@[a].tags@)
                    ==> ids_in_range(data.ways@[a].refs@, len as nat)),
            decreases n - i,
        {
            if self.skip_elevation(&data.ways[i]) && !crate::bits::ids_fit(&data.ways[i].refs, len) {
                return false;
            }
            i = i + 1;
        }
        true
    }
}

impl Handler for SkipElevationNodeCollector {
    open spec fn handled(&self, before: HandlerData, after: HandlerData) -> bool {
        &&& skipped_refs_in_range(self.no_elevation_keys@, before.ways@, bit_contents(before.no_elevation_node_ids).len())
                ==> bit_contents(after.no_elevation_node_ids) == with_bits_set(
                    bit_contents(before.no_elevation_node_ids),
                    skipped_node_ids(self.no_elevation_keys@, before.ways@),
                )
        &&& !skipped_refs_in_range(self.no_elevation_keys@, before.ways@, bit_contents(before.no_elevation_node_ids).len())
                ==> after == before
        &&& after == (HandlerData { no_elevation_node_ids: after.no_elevation_node_ids, ..before })
    }

    open spec fn flushed(&self, before: HandlerData, after: HandlerData) -> bool {
        self.handled(before, after)
    }

    open spec fn handled_after_flush(&self, flushed: HandlerData, before: HandlerData, after: HandlerData) -> bool {
        self.handled(before, after)
    }

    open spec fn handled_after_handle(&self, handled: HandlerData, before: HandlerData, after: HandlerData) -> bool {
        self.handled(before, after)
    }

    open spec fn handled_after_close(&self, closed: HandlerData, before: HandlerData, after: HandlerData) -> bool {
        self.handled(before, after)
    }

    open spec fn closed(&self, before: HandlerData, after: HandlerData) -> bool {
        after == before
    }

    fn name(&self) -> (s: String)
        ensures
            s@ == "SkipElevationNodeCollector"@,
    {
        "SkipElevationNodeCollector".to_owned()
    }

    /// Marks the nodes; where a node id lies outside the bit set, the ways in
    /// flight are left unmarked.
    fn handle(&mut self, data: &mut HandlerData)
        ensures
            *final(self) == *old(self),
            skipped_refs_in_range(old(self).no_elevation_keys@, old(data).ways@, bit_contents(old(data).no_elevation_node_ids).len())
                ==> bit_contents(final(data).no_elevation_node_ids) == with_bits_set(
                    bit_contents(old(data).no_elevation_node_ids),
                    skipped_node_ids(old(self).no_elevation_keys@, old(data).ways@),
                ),
            !skipped_refs_in_range(old(self).no_elevation_keys@, old(data).ways@, bit_contents(old(data).no_elevation_node_ids).len())
                ==> *final(data) == *old(data),
            *final(data) == (HandlerData { no_elevation_node_ids: final(data).no_elevation_node_ids, ..*old(data) }),
    {
        if self.refs_fit(data) {
            self.collect(data);
        }
    }

    /// Buffers nothing, so flushing is handling.
    fn flush(&mut self, data: &mut HandlerData) {
        self.handle(data)
    }

    /// Records nothing.
    fn close(&mut self, data: &mut HandlerData) {
    }
}

} // verus!
