//! Handlers that remove elements, or tags of elements.

use vstd::prelude::*;
use bit_vec::BitVec;
use crate::bits::{bit_contents, bit_for_id, bit_is_set};
use crate::element_ops::{OsmElement, KeepTest, kept, retain_kept, lemma_kept_partition};
use crate::handler::{Handler, HandlerData};
use crate::model::{Tag, Node, Way, Relation};
use crate::pattern::{Pattern, regex_finds};
use crate::predicate::{
    HasOneOfTagKeysPredicate, HasTagKeyValuePredicate, HasNoneOfTagKeysPredicate,
    has_one_of_keys, has_key_value, has_none_of_keys, key_in, contains_key,
};
use crate::selection::OsmElementTypeSelection;
use crate::strmap::{StringMap, str_eq};

verus! {

/// Whether a filter keeps what matches or what does not match.
pub enum FilterType {
    AcceptMatching,
    RemoveMatching,
}

/// Whether an element whose match result is `matched` passes a filter of type `t`.
pub open spec fn passes(t: FilterType, matched: bool) -> bool {
    match t {
        FilterType::AcceptMatching => matched,
        FilterType::RemoveMatching => !matched,
    }
}

impl FilterType {
    /// Whether an element whose match result is `matched` passes.
    pub fn passes(&self, matched: bool) -> (b: bool)
        ensures
            b == passes(*self, matched),
    {
        match self {
            FilterType::AcceptMatching => matched,
            FilterType::RemoveMatching => !matched,
        }
    }
}

/// `data` with its element lists replaced by `nodes`, `ways` and `relations`.
pub open spec fn with_elements(
    data: HandlerData,
    nodes: Seq<Node>,
    ways: Seq<Way>,
    relations: Seq<Relation>,
    after: HandlerData,
) -> bool {
    &&& after.nodes@ == nodes
    &&& after.ways@ == ways
    &&& after.relations@ == relations
    &&& after == (HandlerData { nodes: after.nodes, ways: after.ways, relations: after.relations, ..data })
}

// ---------------------------------------------------------------------------
// Filtering elements by the value of one tag

/// Some tag has key `key` and a value that `pattern` matches.
pub open spec fn has_matching_value(key: Seq<char>, pattern: Seq<char>, tags: Seq<Tag>) -> bool {
    exists|i: int| 0 <= i < tags.len() && #[trigger] tags[i].k@ == key && regex_finds(pattern, tags[i].v@)
}

/// Keeps or removes the elements that have a tag with a given key whose value
/// matches a regular expression.
pub struct TagValueBasedOsmElementsFilter {
    pub handle_types: OsmElementTypeSelection,
    pub tag_key: String,
    pub tag_value_regex: Pattern,
    pub filter_type: FilterType,
}

impl TagValueBasedOsmElementsFilter {
    pub fn new(
        handle_types: OsmElementTypeSelection,
        tag_key: String,
        tag_value_regex: Pattern,
        filter_type: FilterType,
    ) -> (f: Self)
        ensures
            f.handle_types == handle_types,
            f.tag_key@ == tag_key@,
            f.tag_value_regex == tag_value_regex,
            f.filter_type == filter_type,
    {
        Self { handle_types, tag_key, tag_value_regex, filter_type }
    }

    /// Whether an element with these tags passes.
    pub open spec fn accepts(&self, tags: Seq<Tag>) -> bool {
        passes(self.filter_type, has_matching_value(self.tag_key@, self.tag_value_regex.source_view(), tags))
    }

    pub fn accept_by_tags(&self, tags: &Vec<Tag>) -> (b: bool)
        ensures
            b == self.accepts(tags@),
    {
        let n = tags.len();
        let mut i: usize = 0;
        while i < n
            invariant
                n == tags@.len(),
                i <= n,
                forall|j: int| 0 <= j < i ==> !(#[trigger] tags@[j].k@ == self.tag_key@
                    && regex_finds(self.tag_value_regex.source_view(), tags@[j].v@)),
            decreases n - i,
        {
            if str_eq(self.tag_key.as_str(), tags[i].k.as_str())
                && self.tag_value_regex.is_match(tags[i].v.as_str()) {
                return self.filter_type.passes(true);
            }
            i = i + 1;
        }
        self.filter_type.passes(false)
    }

    /// Removes the elements of the handled kinds that do not pass.
    pub fn filter(&self, data: &mut HandlerData)
        ensures
            with_elements(
                *old(data),
                if self.handle_types.node { kept(*self, old(data).nodes@) } else { old(data).nodes@ },
                if self.handle_types.way { kept(*self, old(data).ways@) } else { old(data).ways@ },
                if self.handle_types.relation { kept(*self, old(data).relations@) } else { old(data).relations@ },
                *final(data),
            ),
    {
        if self.handle_types.node {
            retain_kept(&mut data.nodes, self);
        }
        if self.handle_types.way {
            retain_kept(&mut data.ways, self);
        }
        if self.handle_types.relation {
            retain_kept(&mut data.relations, self);
        }
    }
}

impl<E: OsmElement> KeepTest<E> for TagValueBasedOsmElementsFilter {
    open spec fn spec_keep(&self, e: E) -> bool {
        self.accepts(e.spec_tags())
    }

    fn keep(&self, e: &E) -> (b: bool) {
        self.accept_by_tags(e.element_tags())
    }
}

impl Handler for TagValueBasedOsmElementsFilter {
    open spec fn handled(&self, before: HandlerData, after: HandlerData) -> bool {
        &&& with_elements(
                before,
                if self.handle_types.node { kept(*self, before.nodes@) } else { before.nodes@ },
                if self.handle_types.way { kept(*self, before.ways@) } else { before.ways@ },
                if self.handle_types.relation { kept(*self, before.relations@) } else { before.relations@ },
                after
            )
    }

    open spec fn flushed(&self, before: HandlerData, after: HandlerData) -> bool {
        self.handled(before, after)
    }

    open spec fn handled_after_flush(&self, flushed: HandlerData, before: HandlerData, after: HandlerData) -> bool {
        self.handled(before, after)
    }

    open spec fn handled_after_handle(&self, handled: HandlerData, before: HandlerData, after: HandlerData) -> bool {
        self.handled(before, after)
    }

    open spec fn handled_after_close(&self, closed: HandlerData, before: HandlerData, after: HandlerData) -> bool {
        self.handled(before, after)
    }

    open spec fn closed(&self, before: HandlerData, after: HandlerData) -> bool {
        after == before
    }

    fn name(&self) -> (s: String)
        ensures
            s@ == "TagValueBasedOsmElementsFilter"@,
    {
        "TagValueBasedOsmElementsFilter".to_owned()
    }

    fn handle(&mut self, data: &mut HandlerData)
        ensures
            *final(self) == *old(self),
            with_elements(
                *old(data),
                if old(self).handle_types.node { kept(*old(self), old(data).nodes@) } else { old(data).nodes@ },
                if old(self).handle_types.way { kept(*old(self), old(data).ways@) } else { old(data).ways@ },
                if old(self).handle_types.relation { kept(*old(self), old(data).relations@) } else { old(data).relations@ },
                *final(data),
            ),
    {
        self.filter(data)
    }

    /// Buffers nothing, so flushing is handling.
    fn flush(&mut self, data: &mut HandlerData) {
        self.handle(data)
    }

    /// Records nothing.
    fn close(&mut self, data: &mut HandlerData) {
    }
}

// ---------------------------------------------------------------------------
// Filtering elements by tag keys

/// Keeps or removes the elements that have a tag with one of the given keys.
/// It works on every kind of element, whatever `handle_types` says.
pub struct TagKeyBasedOsmElementsFilter {
    pub handle_types: OsmElementTypeSelection,
    pub tag_keys: Vec<String>,
    pub filter_type: FilterType,
}

impl TagKeyBasedOsmElementsFilter {
    pub fn new(handle_types: OsmElementTypeSelection, tag_keys: Vec<String>, filter_type: FilterType) -> (f: Self)
        ensures
            f.handle_types == handle_types,
            f.tag_keys@ == tag_keys@,
            f.filter_type == filter_type,
    {
        Self { handle_types, tag_keys, filter_type }
    }

    /// Whether an element with these tags passes.
    pub open spec fn accepts(&self, tags: Seq<Tag>) -> bool {
        passes(self.filter_type, has_one_of_keys(self.tag_keys@, tags))
    }

    pub fn accept_by_tags(&self, tags: &Vec<Tag>) -> (b: bool)
        ensures
            b == self.accepts(tags@),
    {
        let n = tags.len();
        let mut i: usize = 0;
        while i < n
            invariant
                n == tags@.len(),
                i <= n,
                forall|j: int| 0 <= j < i ==> !key_in(self.tag_keys@, #[trigger] tags@[j].k@),
            decreases n - i,
        {
            if contains_key(&self.tag_keys, tags[i].k.as_str()) {
                return self.filter_type.passes(true);
            }
            i = i + 1;
        }
        self.filter_type.passes(false)
    }

    /// Removes the nodes, ways and relations that do not pass.
    pub fn filter(&self, data: &mut HandlerData)
        ensures
            with_elements(
                *old(data),
                kept(*self, old(data).nodes@),
                kept(*self, old(data).ways@),
                kept(*self, old(data).relations@),
                *final(data),
            ),
    {
        retain_kept(&mut data.nodes, self);
        retain_kept(&mut data.ways, self);
        retain_kept(&mut data.relations, self);
    }
}

impl<E: OsmElement> KeepTest<E> for TagKeyBasedOsmElementsFilter {
    open spec fn spec_keep(&self, e: E) -> bool {
        self.accepts(e.spec_tags())
    }

    fn keep(&self, e: &E) -> (b: bool) {
        self.accept_by_tags(e.element_tags())
    }
}

impl Handler for TagKeyBasedOsmElementsFilter {
    open spec fn handled(&self, before: HandlerData, after: HandlerData) -> bool {
        &&& with_elements(
                before,
                kept(*self, before.nodes@),
                kept(*self, before.ways@),
                kept(*self, before.relations@),
                after
            )
    }

    open spec fn flushed(&self, before: HandlerData, after: HandlerData) -> bool {
        self.handled(before, after)
    }

    open spec fn handled_after_flush(&self, flushed: HandlerData, before: HandlerData, after: HandlerData) -> bool {
        self.handled(before, after)
    }

    open spec fn handled_after_handle(&self, handled: HandlerData, before: HandlerData, after: HandlerData) -> bool {
        self.handled(before, after)
    }

    open spec fn handled_after_close(&self, closed: HandlerData, before: HandlerData, after: HandlerData) -> bool {
        self.handled(before, after)
    }

    open spec fn closed(&self, before: HandlerData, after: HandlerData) -> bool {
        after == before
    }

    fn name(&self) -> (s: String)
        ensures
            s@ == "TagKeyBasedOsmElementsFilter"@,
    {
        "TagKeyBasedOsmElementsFilter".to_owned()
    }

    fn handle(&mut self, data: &mut HandlerData)
        ensures
            *final(self) == *old(self),
            with_elements(
                *old(data),
                kept(*old(self), old(data).nodes@),
                kept(*old(self), old(data).ways@),
                kept(*old(self), old(data).relations@),
                *final(data),
            ),
    {
        self.filter(data)
    }

    /// Buffers nothing, so flushing is handling.
    fn flush(&mut self, data: &mut HandlerData) {
        self.handle(data)
    }

    /// Records nothing.
    fn close(&mut self, data: &mut HandlerData) {
    }
}

// ---------------------------------------------------------------------------
// Filtering tags by key

/// Keeps or removes the tags whose key matches a regular expression.
pub struct TagFilterByKey {
    pub handle_types: OsmElementTypeSelection,
    pub key_regex: Pattern,
    pub filter_type: FilterType,
}

/// Every element of `after` agrees with the one at the same place in
/// `before`, but for its tags, which are those of `t` keeps.
pub open spec fn tags_filtered<E: OsmElement>(t: TagFilterByKey, before: Seq<E>, after: Seq<E>) -> bool {
    &&& after.len() == before.len()
    &&& forall|i: int| 0 <= i < before.len() ==> {
        &&& (#[trigger] after[i]).same_but_tags(&before[i])
        &&& after[i].spec_tags() == kept(t, before[i].spec_tags())
    }
}

impl TagFilterByKey {
    pub fn new(handle_types: OsmElementTypeSelection, key_regex: Pattern, filter_type: FilterType) -> (f: Self)
        ensures
            f.handle_types == handle_types,
            f.key_regex == key_regex,
            f.filter_type == filter_type,
    {
        Self { handle_types, key_regex, filter_type }
    }

    /// Removes the tags that do not pass; the others keep their order.
    pub fn filter_tags(&self, tags: &mut Vec<Tag>)
        ensures
            final(tags)@ == kept(*self, old(tags)@),
    {
        retain_kept(tags, self);
    }

    /// Filters the tags of every element of `elements`.
    pub fn filter_element_tags<E: OsmElement>(&self, elements: &mut Vec<E>)
        ensures
            tags_filtered(*self, old(elements)@, final(elements)@),
    {
        let n = elements.len();
        let mut i: usize = 0;
        while i < n
            invariant
                n == elements@.len(),
                n == old(elements)@.len(),
                i <= n,
                forall|j: int| i <= j < n ==> #[trigger] elements@[j] == old(elements)@[j],
                forall|j: int| 0 <= j < i ==> {
                    &&& (#[trigger] elements@[j]).same_but_tags(&old(elements)@[j])
                    &&& elements@[j].spec_tags() == kept(*self, old(elements)@[j].spec_tags())
                },
            decreases n - i,
        {
            let tags = elements[i].element_tags_mut();
            self.filter_tags(tags);
            i = i + 1;
        }
    }

    /// Filters the tags of the elements of the handled kinds.
    pub fn filter(&self, data: &mut HandlerData)
        ensures
            final(data).nodes@.len() == old(data).nodes@.len(),
            final(data).ways@.len() == old(data).ways@.len(),
            final(data).relations@.len() == old(data).relations@.len(),
            if self.handle_types.node {
                tags_filtered(*self, old(data).nodes@, final(data).nodes@)
            } else {
                final(data).nodes@ == old(data).nodes@
            },
            if self.handle_types.way {
                tags_filtered(*self, old(data).ways@, final(data).ways@)
            } else {
                final(data).ways@ == old(data).ways@
            },
            if self.handle_types.relation {
                tags_filtered(*self, old(data).relations@, final(data).relations@)
            } else {
                final(data).relations@ == old(data).relations@
            },
            *final(data) == (HandlerData {
                nodes: final(data).nodes,
                ways: final(data).ways,
                relations: final(data).relations,
                ..*old(data)
            }),
    {
        if self.handle_types.node {
            self.filter_element_tags(&mut data.nodes);
        }
        if self.handle_types.way {
            self.filter_element_tags(&mut data.ways);
        }
        if self.handle_types.relation {
            self.filter_element_tags(&mut data.relations);
        }
    }
}

impl KeepTest<Tag> for TagFilterByKey {
    open spec fn spec_keep(&self, tag: Tag) -> bool {
        passes(self.filter_type, regex_finds(self.key_regex.source_view(), tag.k@))
    }

    fn keep(&self, tag: &Tag) -> (b: bool) {
        let matched = self.key_regex.is_match(tag.k.as_str());
        self.filter_type.passes(matched)
    }
}

impl Handler for TagFilterByKey {
    open spec fn handled(&self, before: HandlerData, after: HandlerData) -> bool {
        &&& after.nodes@.len() == before.nodes@.len()
        &&& after.ways@.len() == before.ways@.len()
        &&& after.relations@.len() == before.relations@.len()
        &&& if self.handle_types.node {
                tags_filtered(*self, before.nodes@, after.nodes@)
            } else {
                after.nodes@ == before.nodes@
            }
        &&& if self.handle_types.way {
                tags_filtered(*self, before.ways@, after.ways@)
            } else {
                after.ways@ == before.ways@
            }
        &&& if self.handle_types.relation {
                tags_filtered(*self, before.relations@, after.relations@)
            } else {
                after.relations@ == before.relations@
            }
        &&& after == (HandlerData {
                nodes: after.nodes,
                ways: after.ways,
                relations: after.relations,
                ..before
            })
    }

    open spec fn flushed(&self, before: HandlerData, after: HandlerData) -> bool {
        self.handled(before, after)
    }

    open spec fn handled_after_flush(&self, flushed: HandlerData, before: HandlerData, after: HandlerData) -> bool {
        self.handled(before, after)
    }

    open spec fn handled_after_handle(&self, handled: HandlerData, before: HandlerData, after: HandlerData) -> bool {
        self.handled(before, after)
    }

    open spec fn handled_after_close(&self, closed: HandlerData, before: HandlerData, after: HandlerData) -> bool {
        self.handled(before, after)
    }

    open spec fn closed(&self, before: HandlerData, after: HandlerData) -> bool {
        after == before
    }

    fn name(&self) -> (s: String)
        ensures
            s@ == "TagFilterByKey"@,
    {
        "TagFilterByKey".to_owned()
    }

    fn handle(&mut self, data: &mut HandlerData)
        ensures
            *final(self) == *old(self),
            final(data).nodes@.len() == old(data).nodes@.len(),
            final(data).ways@.len() == old(data).ways@.len(),
            final(data).relations@.len() == old(data).relations@.len(),
            if old(self).handle_types.node {
                tags_filtered(*old(self), old(data).nodes@, final(data).nodes@)
            } else {
                final(data).nodes@ == old(data).nodes@
            },
            if old(self).handle_types.way {
                tags_filtered(*old(self), old(data).ways@, final(data).ways@)
            } else {
                final(data).ways@ == old(data).ways@
            },
            if old(self).handle_types.relation {
                tags_filtered(*old(self), old(data).relations@, final(data).relations@)
            } else {
                final(data).relations@ == old(data).relations@
            },
            *final(data) == (HandlerData {
                nodes: final(data).nodes,
                ways: final(data).ways,
                relations: final(data).relations,
                ..*old(data)
            }),
    {
        self.filter(data)
    }

    /// Buffers nothing, so flushing is handling.
    fn flush(&mut self, data: &mut HandlerData) {
        self.handle(data)
    }

    /// Records nothing.
    fn close(&mut self, data: &mut HandlerData) {
    }
}

// ---------------------------------------------------------------------------
// Removing all elements of some kinds

/// Removes every element of the handled kinds.
pub struct AllElementsFilter {
    pub handle_types: OsmElementTypeSelection,
}

impl AllElementsFilter {
    pub fn filter(&self, data: &mut HandlerData)
        ensures
            with_elements(
                *old(data),
                if self.handle_types.node { Seq::empty() } else { old(data).nodes@ },
                if self.handle_types.way { Seq::empty() } else { old(data).ways@ },
                if self.handle_types.relation { Seq::empty() } else { old(data).relations@ },
                *final(data),
            ),
    {
        if self.handle_types.node {
            data.nodes.clear();
        }
        if self.handle_types.way {
            data.ways.clear();
        }
        if self.handle_types.relation {
            data.relations.clear();
        }
    }
}

impl Handler for AllElementsFilter {
    open spec fn handled(&self, before: HandlerData, after: HandlerData) -> bool {
        &&& with_elements(
                before,
                if self.handle_types.node { Seq::empty() } else { before.nodes@ },
                if self.handle_types.way { Seq::empty() } else { before.ways@ },
                if self.handle_types.relation { Seq::empty() } else { before.relations@ },
                after
            )
    }

    open spec fn flushed(&self, before: HandlerData, after: HandlerData) -> bool {
        self.handled(before, after)
    }

    open spec fn handled_after_flush(&self, flushed: HandlerData, before: HandlerData, after: HandlerData) -> bool {
        self.handled(before, after)
    }

    open spec fn handled_after_handle(&self, handled: HandlerData, before: HandlerData, after: HandlerData) -> bool {
        self.handled(before, after)
    }

    open spec fn handled_after_close(&self, closed: HandlerData, before: HandlerData, after: HandlerData) -> bool {
        self.handled(before, after)
    }

    open spec fn closed(&self, before: HandlerData, after: HandlerData) -> bool {
        after == before
    }

    fn name(&self) -> (s: String)
        ensures
            s@ == "AllElementsFilter"@,
    {
        "AllElementsFilter".to_owned()
    }

    fn handle(&mut self, data: &mut HandlerData)
        ensures
            *final(self) == *old(self),
            with_elements(
                *old(data),
                if old(self).handle_types.node { Seq::empty() } else { old(data).nodes@ },
                if old(self).handle_types.way { Seq::empty() } else { old(data).ways@ },
                if old(self).handle_types.relation { Seq::empty() } else { old(data).relations@ },
                *final(data),
            ),
    {
        self.filter(data)
    }

    /// Buffers nothing, so flushing is handling.
    fn flush(&mut self, data: &mut HandlerData) {
        self.handle(data)
    }

    /// Records nothing.
    fn close(&mut self, data: &mut HandlerData) {
    }
}

// ---------------------------------------------------------------------------
// Filtering elements by collected ids

/// Keeps the elements whose id is set in a bit set.
pub struct IdBitsTest<'a> {
    pub bits: &'a BitVec,
}

impl<'a, E: OsmElement> KeepTest<E> for IdBitsTest<'a> {
    open spec fn spec_keep(&self, e: E) -> bool {
        bit_is_set(bit_contents(*self.bits), e.spec_id() as int)
    }

    fn keep(&self, e: &E) -> (b: bool) {
        match bit_for_id(self.bits, e.element_id()) {
            Some(bit) => bit,
            None => false,
        }
    }
}

/// Keeps the elements of the handled kinds whose ids were collected in the
/// first pass (`accept_node_ids`, `accept_way_ids`, `accept_relation_ids`).
pub struct IdFilter {
    pub handle_types: OsmElementTypeSelection,
}

impl IdFilter {
    pub fn filter(&self, data: &mut HandlerData)
        ensures
            with_elements(
                *old(data),
                if self.handle_types.node {
                    kept(IdBitsTest { bits: &old(data).accept_node_ids }, old(data).nodes@)
                } else {
                    old(data).nodes@
                },
                if self.handle_types.way {
                    kept(IdBitsTest { bits: &old(data).accept_way_ids }, old(data).ways@)
                } else {
                    old(data).ways@
                },
                if self.handle_types.relation {
                    kept(IdBitsTest { bits: &old(data).accept_relation_ids }, old(data).relations@)
                } else {
                    old(data).relations@
                },
                *final(data),
            ),
    {
        if self.handle_types.node {
            retain_kept(&mut data.nodes, &IdBitsTest { bits: &data.accept_node_ids });
        }
        if self.handle_types.way {
            retain_kept(&mut data.ways, &IdBitsTest { bits: &data.accept_way_ids });
        }
        if self.handle_types.relation {
            retain_kept(&mut data.relations, &IdBitsTest { bits: &data.accept_relation_ids });
        }
    }
}

impl Handler for IdFilter {
    open spec fn handled(&self, before: HandlerData, after: HandlerData) -> bool {
        &&& with_elements(
                before,
                if self.handle_types.node {
                    kept(IdBitsTest { bits: &before.accept_node_ids }, before.nodes@)
                } else {
                    before.nodes@
                },
                if self.handle_types.way {
                    kept(IdBitsTest { bits: &before.accept_way_ids }, before.ways@)
                } else {
                    before.ways@
                },
                if self.handle_types.relation {
                    kept(IdBitsTest { bits: &before.accept_relation_ids }, before.relations@)
                } else {
                    before.relations@
                },
                after
            )
    }

    open spec fn flushed(&self, before: HandlerData, after: HandlerData) -> bool {
        self.handled(before, after)
    }

    open spec fn handled_after_flush(&self, flushed: HandlerData, before: HandlerData, after: HandlerData) -> bool {
        self.handled(before, after)
    }

    open spec fn handled_after_handle(&self, handled: HandlerData, before: HandlerData, after: HandlerData) -> bool {
        self.handled(before, after)
    }

    open spec fn handled_after_close(&self, closed: HandlerData, before: HandlerData, after: HandlerData) -> bool {
        self.handled(before, after)
    }

    open spec fn closed(&self, before: HandlerData, after: HandlerData) -> bool {
        after == before
    }

    fn name(&self) -> (s: String)
        ensures
            s@ == "IdFilter"@,
    {
        "IdFilter".to_owned()
    }

    fn handle(&mut self, data: &mut HandlerData)
        ensures
            *final(self) == *old(self),
            with_elements(
                *old(data),
                if old(self).handle_types.node {
                    kept(IdBitsTest { bits: &old(data).accept_node_ids }, old(data).nodes@)
                } else {
                    old(data).nodes@
                },
                if old(self).handle_types.way {
                    kept(IdBitsTest { bits: &old(data).accept_way_ids }, old(data).ways@)
                } else {
                    old(data).ways@
                },
                if old(self).handle_types.relation {
                    kept(IdBitsTest { bits: &old(data).accept_relation_ids }, old(data).relations@)
                } else {
                    old(data).relations@
                },
                *final(data),
            ),
    {
        self.filter(data)
    }

    /// Buffers nothing, so flushing is handling.
    fn flush(&mut self, data: &mut HandlerData) {
        self.handle(data)
    }

    /// Records nothing.
    fn close(&mut self, data: &mut HandlerData) {
    }
}

/// Keeps the nodes whose ids were collected in `accept_node_ids`.
pub struct NodeIdFilter {}

impl NodeIdFilter {
    pub fn filter(&self, data: &mut HandlerData)
        ensures
            with_elements(
                *old(data),
                kept(IdBitsTest { bits: &old(data).accept_node_ids }, old(data).nodes@),
                old(data).ways@,
                old(data).relations@,
                *final(data),
            ),
    {
        retain_kept(&mut data.nodes, &IdBitsTest { bits: &data.accept_node_ids });
    }
}

impl Handler for NodeIdFilter {
    open spec fn handled(&self, before: HandlerData, after: HandlerData) -> bool {
        &&& with_elements(
                before,
                kept(IdBitsTest { bits: &before.accept_node_ids }, before.nodes@),
                before.ways@,
                before.relations@,
                after
            )
    }

    open spec fn flushed(&self, before: HandlerData, after: HandlerData) -> bool {
        self.handled(before, after)
    }

    open spec fn handled_after_flush(&self, flushed: HandlerData, before: HandlerData, after: HandlerData) -> bool {
        self.handled(before, after)
    }

    open spec fn handled_after_handle(&self, handled: HandlerData, before: HandlerData, after: HandlerData) -> bool {
        self.handled(before, after)
    }

    open spec fn handled_after_close(&self, closed: HandlerData, before: HandlerData, after: HandlerData) -> bool {
        self.handled(before, after)
    }

    open spec fn closed(&self, before: HandlerData, after: HandlerData) -> bool {
        after == before
    }

    fn name(&self) -> (s: String)
        ensures
            s@ == "NodeIdFilter"@,
    {
        "NodeIdFilter".to_owned()
    }

    fn handle(&mut self, data: &mut HandlerData)
        ensures
            *final(self) == *old(self),
            with_elements(
                *old(data),
                kept(IdBitsTest { bits: &old(data).accept_node_ids }, old(data).nodes@),
                old(data).ways@,
                old(data).relations@,
                *final(data),
            ),
    {
        self.filter(data)
    }

    /// Buffers nothing, so flushing is handling.
    fn flush(&mut self, data: &mut HandlerData) {
        self.handle(data)
    }

    /// Records nothing.
    fn close(&mut self, data: &mut HandlerData) {
    }
}

// ---------------------------------------------------------------------------
// The routing filter for ways and relations

/// Keeps the ways and relations that are relevant for routing: those with a
/// wanted key, or a wanted key/value pair, or none of the unwanted keys.
pub struct ComplexElementsFilter {
    pub has_good_key_predicate: HasOneOfTagKeysPredicate,
    pub has_good_key_value_predicate: HasTagKeyValuePredicate,
    pub has_bad_key_predicate: HasNoneOfTagKeysPredicate,
}

/// The string views of a list of strings.
pub open spec fn string_views(v: Seq<String>) -> Seq<Seq<char>> {
    v.map_values(|s: String| s@)
}

impl ComplexElementsFilter {
    pub fn new(
        has_good_key_predicate: HasOneOfTagKeysPredicate,
        has_good_key_value_predicate: HasTagKeyValuePredicate,
        has_bad_key_predicate: HasNoneOfTagKeysPredicate,
    ) -> (f: Self)
        ensures
            f.has_good_key_predicate == has_good_key_predicate,
            f.has_good_key_value_predicate == has_good_key_value_predicate,
            f.has_bad_key_predicate == has_bad_key_predicate,
    {
        Self { has_good_key_predicate, has_good_key_value_predicate, has_bad_key_predicate }
    }

    /// The filter openrouteservice uses: wanted keys `highway` and `route`;
    /// wanted pairs `railway=platform`, `public_transport=platform` and
    /// `man_made=pier`; unwanted keys for buildings, land use, boundaries,
    /// nature, places, water, aviation, military, power, communication and
    /// man-made structures.
    pub fn ors_default() -> (f: Self)
        ensures
            string_views(f.has_good_key_predicate.keys@) == seq!["highway"@, "route"@],
            f.has_good_key_value_predicate.key_values.view() == map![
                "railway"@ => "platform"@,
                "public_transport"@ => "platform"@,
                "man_made"@ => "pier"@
            ],
            string_views(f.has_bad_key_predicate.keys@) == seq![
                "building"@, "landuse"@, "boundary"@, "natural"@, "place"@, "waterway"@,
                "aeroway"@, "aviation"@, "military"@, "power"@, "communication"@, "man_made"@
            ],
    {
        let mut key_values = StringMap::new();
        key_values.insert("railway".to_owned(), "platform".to_owned());
        key_values.insert("public_transport".to_owned(), "platform".to_owned());
        key_values.insert("man_made".to_owned(), "pier".to_owned());
        let mut good: Vec<String> = Vec::new();
        good.push("highway".to_owned());
        good.push("route".to_owned());
        let mut bad: Vec<String> = Vec::new();
        bad.push("building".to_owned());
        bad.push("landuse".to_owned());
        bad.push("boundary".to_owned());
        bad.push("natural".to_owned());
        bad.push("place".to_owned());
        bad.push("waterway".to_owned());
        bad.push("aeroway".to_owned());
        bad.push("aviation".to_owned());
        bad.push("military".to_owned());
        bad.push("power".to_owned());
        bad.push("communication".to_owned());
        bad.push("man_made".to_owned());
        let f = ComplexElementsFilter::new(
            HasOneOfTagKeysPredicate { keys: good },
            HasTagKeyValuePredicate { key_values },
            HasNoneOfTagKeysPredicate { keys: bad },
        );
        assert(string_views(f.has_good_key_predicate.keys@) =~= seq!["highway"@, "route"@]);
        assert(f.has_good_key_value_predicate.key_values.view() =~= map![
            "railway"@ => "platform"@,
            "public_transport"@ => "platform"@,
            "man_made"@ => "pier"@
        ]);
        assert(string_views(f.has_bad_key_predicate.keys@) =~= seq![
            "building"@, "landuse"@, "boundary"@, "natural"@, "place"@, "waterway"@,
            "aeroway"@, "aviation"@, "military"@, "power"@, "communication"@, "man_made"@
        ]);
        f
    }

    /// Whether an element with these tags passes.
    pub open spec fn accepts(&self, tags: Seq<Tag>) -> bool {
        ||| has_one_of_keys(self.has_good_key_predicate.keys@, tags)
        ||| has_key_value(self.has_good_key_value_predicate.key_values.view(), tags)
        ||| has_none_of_keys(self.has_bad_key_predicate.keys@, tags)
    }

    pub fn accept_by_tags(&self, tags: &Vec<Tag>) -> (b: bool)
        ensures
            b == self.accepts(tags@),
    {
        self.has_good_key_predicate.test(tags) || self.has_good_key_value_predicate.test(tags)
            || self.has_bad_key_predicate.test(tags)
    }

    pub fn is_way_accepted(&self, way: &Way) -> (b: bool)
        ensures
            b == self.accepts(way.tags@),
    {
        self.accept_by_tags(&way.tags)
    }

    pub fn is_relation_accepted(&self, relation: &Relation) -> (b: bool)
        ensures
            b == self.accepts(relation.tags@),
    {
        self.accept_by_tags(&relation.tags)
    }

    /// Removes the ways and relations that do not pass; nodes pass unchanged.
    pub fn filter(&self, data: &mut HandlerData)
        ensures
            with_elements(
                *old(data),
                old(data).nodes@,
                kept(*self, old(data).ways@),
                kept(*self, old(data).relations@),
                *final(data),
            ),
    {
        retain_kept(&mut data.ways, self);
        retain_kept(&mut data.relations, self);
    }
}

impl<E: OsmElement> KeepTest<E> for ComplexElementsFilter {
    open spec fn spec_keep(&self, e: E) -> bool {
        self.accepts(e.spec_tags())
    }

    fn keep(&self, e: &E) -> (b: bool) {
        self.accept_by_tags(e.element_tags())
    }
}

impl Handler for ComplexElementsFilter {
    open spec fn handled(&self, before: HandlerData, after: HandlerData) -> bool {
        &&& with_elements(
                before,
                before.nodes@,
                kept(*self, before.ways@),
                kept(*self, before.relations@),
                after
            )
    }

    open spec fn flushed(&self, before: HandlerData, after: HandlerData) -> bool {
        self.handled(before, after)
    }

    open spec fn handled_after_flush(&self, flushed: HandlerData, before: HandlerData, after: HandlerData) -> bool {
        self.handled(before, after)
    }

    open spec fn handled_after_handle(&self, handled: HandlerData, before: HandlerData, after: HandlerData) -> bool {
        self.handled(before, after)
    }

    open spec fn handled_after_close(&self, closed: HandlerData, before: HandlerData, after: HandlerData) -> bool {
        self.handled(before, after)
    }

    open spec fn closed(&self, before: HandlerData, after: HandlerData) -> bool {
        after == before
    }

    fn name(&self) -> (s: String)
        ensures
            s@ == "ComplexElementsFilter"@,
    {
        "ComplexElementsFilter".to_owned()
    }

    fn handle(&mut self, data: &mut HandlerData)
        ensures
            *final(self) == *old(self),
            with_elements(
                *old(data),
                old(data).nodes@,
                kept(*old(self), old(data).ways@),
                kept(*old(self), old(data).relations@),
                *final(data),
            ),
    {
        self.filter(data)
    }

    /// Buffers nothing, so flushing is handling.
    fn flush(&mut self, data: &mut HandlerData) {
        self.handle(data)
    }

    /// Records nothing.
    fn close(&mut self, data: &mut HandlerData) {
    }
}

// ---------------------------------------------------------------------------
// Laws

/// A filter that accepts what matches and one that removes what matches,
/// on the same keys, split any list of elements: every element passes
/// exactly one of them.
pub proof fn lemma_tag_key_filters_split<E: OsmElement>(
    accept: TagKeyBasedOsmElementsFilter,
    remove: TagKeyBasedOsmElementsFilter,
    s: Seq<E>,
)
    requires
        accept.tag_keys@ == remove.tag_keys@,
        accept.filter_type == FilterType::AcceptMatching,
        remove.filter_type == FilterType::RemoveMatching,
    ensures
        forall|tags: Seq<Tag>| accept.accepts(tags) != remove.accepts(tags),
        kept(accept, s).to_multiset().add(kept(remove, s).to_multiset()) == s.to_multiset(),
{
    assert forall|e: E| #[trigger] KeepTest::<E>::spec_keep(&accept, e) != KeepTest::<E>::spec_keep(&remove, e) by {}
    lemma_kept_partition(accept, remove, s);
}

/// A filter on one tag's value that accepts what matches and one that
/// removes what matches split any list of elements.
pub proof fn lemma_tag_value_filters_split<E: OsmElement>(
    accept: TagValueBasedOsmElementsFilter,
    remove: TagValueBasedOsmElementsFilter,
    s: Seq<E>,
)
    requires
        accept.tag_key@ == remove.tag_key@,
        accept.tag_value_regex.source_view() == remove.tag_value_regex.source_view(),
        accept.filter_type == FilterType::AcceptMatching,
        remove.filter_type == FilterType::RemoveMatching,
    ensures
        forall|tags: Seq<Tag>| accept.accepts(tags) != remove.accepts(tags),
        kept(accept, s).to_multiset().add(kept(remove, s).to_multiset()) == s.to_multiset(),
{
    assert forall|e: E| #[trigger] KeepTest::<E>::spec_keep(&accept, e) != KeepTest::<E>::spec_keep(&remove, e) by {}
    lemma_kept_partition(accept, remove, s);
}

/// Tag filters by key that keep and that remove the matching tags split
/// every tag list: each tag stays in exactly one of the two results.
pub proof fn lemma_tag_filters_split_tags(accept: TagFilterByKey, remove: TagFilterByKey, tags: Seq<Tag>)
    requires
        accept.key_regex.source_view() == remove.key_regex.source_view(),
        accept.filter_type == FilterType::AcceptMatching,
        remove.filter_type == FilterType::RemoveMatching,
    ensures
        kept(accept, tags).to_multiset().add(kept(remove, tags).to_multiset()) == tags.to_multiset(),
{
    assert forall|t: Tag| #[trigger] accept.spec_keep(t) != remove.spec_keep(t) by {}
    lemma_kept_partition(accept, remove, tags);
}

} // verus!
