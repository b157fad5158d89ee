//! The bookkeeping of elevation enrichment: nodes are buffered per
//! elevation file and looked up in batches.
//!
//! Which file covers a node and what elevation it gives are found by the
//! caller; this module decides when a buffer is flushed and how a found
//! elevation is attached.

use vstd::prelude::*;
use crate::buffer_pool::{BufferPool, Batch, add_result, batch_view, batches_view, items_of, batch_items, lemma_add_conserves_items};
use vstd::multiset::Multiset;
use crate::model::{Node, Tag};

verus! {

/// The result of buffering one node.
pub struct BufferStep {
    /// The node itself, when no elevation file covers it.
    pub passthrough: Option<Node>,
    /// The buffer that is due for lookup, with the key of its file.
    pub batch: Option<Batch<Node>>,
}

/// Buffers of nodes per elevation file.
pub struct BufferingElevationEnricher {
    pub pool: BufferPool<Node>,
    /// The limit of buffered nodes in all buffers the enricher was made with;
    /// buffers are flushed by their own size only.
    pub max_buffered_nodes: usize,
}

/// `n` with the elevation `value` added as tag `ele`, or `n` itself when
/// no elevation was found.
pub open spec fn with_elevation(n: Node, value: Option<Seq<char>>, after: Node) -> bool {
    match value {
        Some(v) => {
            &&& after == (Node { tags: after.tags, ..n })
            &&& after.tags@.len() == n.tags@.len() + 1
            &&& after.tags@.drop_last() == n.tags@
            &&& after.tags@.last().k@ == "ele"@
            &&& after.tags@.last().v@ == v
        },
        None => after == n,
    }
}

/// The nodes of a sequence of optional batches.
pub open spec fn batches_nodes(outs: Seq<Option<(u128, Seq<Node>)>>) -> Multiset<Node>
    decreases outs.len(),
{
    if outs.len() == 0 {
        Multiset::empty()
    } else {
        batches_nodes(outs.drop_last()).add(batch_items(outs.last()))
    }
}

/// The nodes that passed through unbuffered.
pub open spec fn passed_nodes(passed: Seq<Option<Node>>) -> Multiset<Node>
    decreases passed.len(),
{
    if passed.len() == 0 {
        Multiset::empty()
    } else {
        passed_nodes(passed.drop_last()).add(match passed.last() {
            Some(n) => Multiset::singleton(n),
            None => Multiset::empty(),
        })
    }
}

/// What each step passed through.
pub open spec fn steps_passed(steps: Seq<BufferStep>) -> Seq<Option<Node>> {
    steps.map_values(|s: BufferStep| s.passthrough)
}

/// The batch each step handed out.
pub open spec fn steps_batches(steps: Seq<BufferStep>) -> Seq<Option<(u128, Seq<Node>)>> {
    steps.map_values(|s: BufferStep| batch_view(s.batch))
}

/// One call of `buffer_node` as its contract states it: `node` for file
/// `tile` takes the buffers from `before` to `after`, passing `passed` through
/// and handing out `out`.
pub open spec fn buffered_step(
    before: Seq<(u128, Seq<Node>)>,
    node: Node,
    tile: Option<u128>,
    batch_size: usize,
    after: Seq<(u128, Seq<Node>)>,
    passed: Option<Node>,
    out: Option<(u128, Seq<Node>)>,
) -> bool {
    match tile {
        None => passed == Some(node) && out is None && after == before,
        Some(t) => passed is None && add_result(before, t, node, batch_size, after, out),
    }
}

/// Buffering nodes one by one and then flushing every buffer loses no node
/// and duplicates none: the nodes buffered at the start together with those
/// handed in are exactly the nodes passed through, the nodes of the batches
/// handed out on the way, and the nodes flushed at the end.
pub proof fn lemma_buffering_then_flush_keeps_every_node(
    states: Seq<Seq<(u128, Seq<Node>)>>,
    nodes: Seq<Node>,
    tiles: Seq<Option<u128>>,
    batch_size: usize,
    passed: Seq<Option<Node>>,
    outs: Seq<Option<(u128, Seq<Node>)>>,
    flushed: Seq<(u128, Seq<Node>)>,
)
    requires
        states.len() == nodes.len() + 1,
        tiles.len() == nodes.len(),
        passed.len() == nodes.len(),
        outs.len() == nodes.len(),
        forall|i: int| 0 <= i < nodes.len() ==> #[trigger] buffered_step(states[i], nodes[i], tiles[i], batch_size,
            states[i + 1], passed[i], outs[i]),
        flushed == states.last(),
    ensures
        items_of(states[0]).add(nodes.to_multiset())
            == passed_nodes(passed).add(batches_nodes(outs)).add(items_of(flushed)),
    decreases nodes.len(),
{
    broadcast use vstd::multiset::group_multiset_axioms;
    broadcast use vstd::seq_lib::to_multiset_build;
    let n = nodes.len();
    if n == 0 {
        assert(nodes.to_multiset() =~= Multiset::<Node>::empty()) by {
            nodes.to_multiset_ensures();
        }
        assert(items_of(states[0]).add(nodes.to_multiset())
            =~= passed_nodes(passed).add(batches_nodes(outs)).add(items_of(flushed)));
    } else {
        let m = n - 1;
        assert forall|i: int| 0 <= i < m implies #[trigger] buffered_step(states.drop_last()[i], nodes.drop_last()[i],
            tiles.drop_last()[i], batch_size, states.drop_last()[i + 1], passed.drop_last()[i], outs.drop_last()[i]) by {
            assert(buffered_step(states[i], nodes[i], tiles[i], batch_size, states[i + 1], passed[i], outs[i]));
        }
        lemma_buffering_then_flush_keeps_every_node(states.drop_last(), nodes.drop_last(), tiles.drop_last(),
            batch_size, passed.drop_last(), outs.drop_last(), states[m]);
        assert(buffered_step(states[m], nodes[m], tiles[m], batch_size, states[m + 1], passed[m], outs[m]));
        assert(nodes.drop_last().push(nodes[m]) =~= nodes);
        vstd::seq_lib::to_multiset_build(nodes.drop_last(), nodes[m]);
        let first = items_of(states[0]);
        let before = items_of(states[m]);
        let after = items_of(states[m + 1]);
        let prev_passed = passed_nodes(passed.drop_last());
        let prev_batches = batches_nodes(outs.drop_last());
        assert(states.drop_last()[0] == states[0]);
        assert(states.drop_last().last() == states[m]);
        assert(flushed == states[m + 1]);
        assert(first.add(nodes.drop_last().to_multiset()) == prev_passed.add(prev_batches).add(before));
        assert(nodes.to_multiset() == nodes.drop_last().to_multiset().insert(nodes[m]));
        assert(passed.last() == passed[m]);
        assert(outs.last() == outs[m]);
        match tiles[m] {
            None => {
                assert(passed_nodes(passed) == prev_passed.add(Multiset::singleton(nodes[m])));
                assert(batches_nodes(outs) =~= prev_batches);
                assert(after == before);
            },
            Some(t) => {
                lemma_add_conserves_items(states[m], t, nodes[m], batch_size, states[m + 1], outs[m]);
                assert(passed_nodes(passed) =~= prev_passed);
                assert(batches_nodes(outs) == prev_batches.add(batch_items(outs[m])));
                assert(before.insert(nodes[m]) == after.add(batch_items(outs[m])));
            },
        }
        let whole = passed_nodes(passed).add(batches_nodes(outs)).add(items_of(flushed));
        assert forall|v: Node| #[trigger] first.add(nodes.to_multiset()).count(v) == whole.count(v) by {
            assert(first.add(nodes.drop_last().to_multiset()).count(v)
                == prev_passed.add(prev_batches).add(before).count(v));
            if tiles[m] is Some {
                assert(before.insert(nodes[m]).count(v) == after.add(batch_items(outs[m])).count(v));
            }
        }
        assert(first.add(nodes.to_multiset()) =~= whole);
    }
}

impl BufferingElevationEnricher {
    /// An enricher that flushes a buffer when it holds `max_buffer_len` nodes.
    pub fn new(max_buffer_len: usize, max_buffered_nodes: usize) -> (e: Self)
        ensures
            e.pool.wf(),
            e.pool.view() == Seq::<(u128, Seq<Node>)>::empty(),
            e.pool.spec_batch_size() == max_buffer_len,
            e.max_buffered_nodes == max_buffered_nodes,
    {
        BufferingElevationEnricher { pool: BufferPool::new(max_buffer_len), max_buffered_nodes }
    }

    /// The sizes used when nothing else is configured: buffers of a million
    /// nodes, five million nodes in all.
    pub fn default() -> (e: Self)
        ensures
            e.pool.wf(),
            e.pool.view() == Seq::<(u128, Seq<Node>)>::empty(),
            e.pool.spec_batch_size() == 1_000_000,
            e.max_buffered_nodes == 5_000_000,
    {
        Self::new(1_000_000, 5_000_000)
    }

    /// Buffers `node` for the elevation file `tile`; a node that no file
    /// covers passes through. A buffer that reached the buffer length is
    /// handed out for lookup.
    pub fn buffer_node(&mut self, node: Node, tile: Option<u128>) -> (step: BufferStep)
        requires
            old(self).pool.wf(),
        ensures
            final(self).pool.wf(),
            final(self).pool.spec_batch_size() == old(self).pool.spec_batch_size(),
            final(self).max_buffered_nodes == old(self).max_buffered_nodes,
            match tile {
                None => {
                    &&& step.passthrough == Some(node)
                    &&& step.batch is None
                    &&& final(self).pool.view() == old(self).pool.view()
                },
                Some(t) => {
                    &&& step.passthrough is None
                    &&& add_result(old(self).pool.view(), t, node, old(self).pool.spec_batch_size(),
                        final(self).pool.view(), batch_view(step.batch))
                },
            },
    {
        match tile {
            None => BufferStep { passthrough: Some(node), batch: None },
            Some(t) => {
                let batch = self.pool.add(t, node);
                BufferStep { passthrough: None, batch }
            },
        }
    }

    /// Hands out every buffered node, buffer by buffer, and empties the buffers.
    pub fn flush_all(&mut self) -> (batches: Vec<Batch<Node>>)
        requires
            old(self).pool.wf(),
        ensures
            final(self).pool.wf(),
            final(self).pool.view() == Seq::<(u128, Seq<Node>)>::empty(),
            batches_view(batches@) == old(self).pool.view(),
            final(self).pool.spec_batch_size() == old(self).pool.spec_batch_size(),
            final(self).max_buffered_nodes == old(self).max_buffered_nodes,
    {
        self.pool.drain_all()
    }

    /// Buffers `nodes` one by one, `tiles[i]` being the elevation file that
    /// covers `nodes[i]`; the steps come in the order of the nodes. No node is
    /// lost or duplicated: those buffered before and those handed in are those
    /// passed through, those in the batches handed out, and those buffered now.
    pub fn buffer_nodes(&mut self, nodes: Vec<Node>, tiles: &Vec<Option<u128>>) -> (steps: Vec<BufferStep>)
        requires
            old(self).pool.wf(),
            nodes@.len() == tiles@.len(),
        ensures
            final(self).pool.wf(),
            final(self).pool.spec_batch_size() == old(self).pool.spec_batch_size(),
            final(self).max_buffered_nodes == old(self).max_buffered_nodes,
            steps@.len() == nodes@.len(),
            exists|states: Seq<Seq<(u128, Seq<Node>)>>| {
                &&& states.len() == nodes@.len() + 1
                &&& states[0] == old(self).pool.view()
                &&& states.last() == final(self).pool.view()
                &&& forall|i: int| 0 <= i < nodes@.len() ==> #[trigger] buffered_step(states[i], nodes@[i], tiles@[i],
                    old(self).pool.spec_batch_size(), states[i + 1], steps@[i].passthrough, batch_view(steps@[i].batch))
            },
            items_of(old(self).pool.view()).add(nodes@.to_multiset())
                == passed_nodes(steps_passed(steps@)).add(batches_nodes(steps_batches(steps@))).add(
                items_of(final(self).pool.view())),
    {
        let n = nodes.len();
        let ghost all = nodes@;
        let ghost bs = self.pool.spec_batch_size();
        let mut pending = nodes;
        let mut rev: Vec<Node> = Vec::new();
        while pending.len() > 0
            invariant
                n == all.len(),
                pending@.len() + rev@.len() == n,
                forall|j: int| 0 <= j < pending@.len() ==> pending@[j] == all[j],
                forall|j: int| 0 <= j < rev@.len() ==> rev@[j] == all[n - 1 - j],
            decreases pending@.len(),
        {
            let x = pending.pop().unwrap();
            rev.push(x);
        }
        let mut steps: Vec<BufferStep> = Vec::new();
        let ghost mut states: Seq<Seq<(u128, Seq<Node>)>> = seq![self.pool.view()];
        let mut i: usize = 0;
        while i < n
            invariant
                n == all.len(),
                n == tiles@.len(),
                i <= n,
                rev@.len() == n - i,
                forall|j: int| 0 <= j < rev@.len() ==> rev@[j] == all[n - 1 - j],
                self.pool.wf(),
                self.pool.spec_batch_size() == bs,
                bs == old(self).pool.spec_batch_size(),
                self.max_buffered_nodes == old(self).max_buffered_nodes,
                steps@.len() == i,
                states.len() == i + 1,
                states[0] == old(self).pool.view(),
                states[i as int] == self.pool.view(),
                forall|k: int| 0 <= k < i ==> #[trigger] buffered_step(states[k], all[k], tiles@[k], bs,
                    states[k + 1], steps@[k].passthrough, batch_view(steps@[k].batch)),
            decreases n - i,
        {
            let node = rev.pop().unwrap();
            assert(node == all[i as int]);
            let step = self.buffer_node(node, tiles[i]);
            proof {
                states = states.push(self.pool.view());
            }
            steps.push(step);
            i = i + 1;
        }
        proof {
            assert(all == nodes@);
            let passed = steps_passed(steps@);
            let outs = steps_batches(steps@);
            assert forall|k: int| 0 <= k < n implies #[trigger] buffered_step(states[k], all[k], tiles@[k], bs,
                states[k + 1], passed[k], outs[k]) by {
                assert(buffered_step(states[k], all[k], tiles@[k], bs, states[k + 1], steps@[k].passthrough,
                    batch_view(steps@[k].batch)));
            }
            lemma_buffering_then_flush_keeps_every_node(states, all, tiles@, bs, passed, outs, states.last());
        }
        steps
    }

    /// Buffers `nodes` as `buffer_nodes` does, then hands out every buffer.
    /// Nothing stays buffered, and no node is lost or duplicated: those
    /// buffered before and those handed in are those passed through and those
    /// in the batches handed out on the way and at the end.
    pub fn buffer_nodes_and_flush(&mut self, nodes: Vec<Node>, tiles: &Vec<Option<u128>>) -> (r: (Vec<BufferStep>, Vec<Batch<Node>>))
        requires
            old(self).pool.wf(),
            nodes@.len() == tiles@.len(),
        ensures
            final(self).pool.wf(),
            final(self).pool.view() == Seq::<(u128, Seq<Node>)>::empty(),
            final(self).pool.spec_batch_size() == old(self).pool.spec_batch_size(),
            final(self).max_buffered_nodes == old(self).max_buffered_nodes,
            r.0@.len() == nodes@.len(),
            exists|states: Seq<Seq<(u128, Seq<Node>)>>| {
                &&& states.len() == nodes@.len() + 1
                &&& states[0] == old(self).pool.view()
                &&& states.last() == batches_view(r.1@)
                &&& forall|i: int| 0 <= i < nodes@.len() ==> #[trigger] buffered_step(states[i], nodes@[i], tiles@[i],
                    old(self).pool.spec_batch_size(), states[i + 1], r.0@[i].passthrough, batch_view(r.0@[i].batch))
            },
            items_of(old(self).pool.view()).add(nodes@.to_multiset())
                == passed_nodes(steps_passed(r.0@)).add(batches_nodes(steps_batches(r.0@))).add(
                items_of(batches_view(r.1@))),
    {
        let steps = self.buffer_nodes(nodes, tiles);
        let rest = self.flush_all();
        (steps, rest)
    }

    /// Adds the elevation found for `node` as tag `ele`; a node without one
    /// is left as it is.
    pub fn add_elevation_tag(&self, node: &mut Node, value: Option<String>)
        ensures
            with_elevation(*old(node), match value { Some(v) => Some(v@), None => None }, *final(node)),
    {
        match value {
            Some(v) => {
                node.tags.push(Tag { k: "ele".to_owned(), v });
                assert(node.tags@.drop_last() =~= old(node).tags@);
            },
            None => {},
        }
    }
}

} // verus!
