//! The OSM element model the handlers work on.
//!
//! Coordinates are held as fixed-point integers in units of 1e-7 degrees,
//! the resolution in which a PBF file stores them.

use vstd::prelude::*;
use crate::text::{signed_dec, i64_to_string};

verus! {

/// A key/value tag of an OSM element.
#[derive(Clone, Debug, PartialEq)]
pub struct Tag {
    pub k: String,
    pub v: String,
}

impl Tag {
    pub fn new(k: String, v: String) -> (t: Tag)
        ensures
            t.k@ == k@,
            t.v@ == v@,
    {
        Tag { k, v }
    }

    pub fn k(&self) -> (r: &String)
        ensures
            r@ == self.k@,
    {
        &self.k
    }

    pub fn v(&self) -> (r: &String)
        ensures
            r@ == self.v@,
    {
        &self.v
    }
}

/// A copy of a tag list.
pub fn clone_tags(tags: &Vec<Tag>) -> (r: Vec<Tag>)
    ensures
        r@ == tags@,
{
    let mut r: Vec<Tag> = Vec::new();
    let n = tags.len();
    let mut i: usize = 0;
    while i < n
        invariant
            n == tags@.len(),
            i <= n,
            r@ == tags@.take(i as int),
        decreases n - i,
    {
        let t = Tag { k: tags[i].k.clone(), v: tags[i].v.clone() };
        r.push(t);
        assert(r@ =~= tags@.take(i + 1));
        i = i + 1;
    }
    assert(tags@.take(n as int) =~= tags@);
    r
}

/// A copy of a list of ids.
pub fn clone_ids(ids: &Vec<i64>) -> (r: Vec<i64>)
    ensures
        r@ == ids@,
{
    let mut r: Vec<i64> = Vec::new();
    let n = ids.len();
    let mut i: usize = 0;
    while i < n
        invariant
            n == ids@.len(),
            i <= n,
            r@ == ids@.take(i as int),
        decreases n - i,
    {
        r.push(ids[i]);
        assert(r@ =~= ids@.take(i + 1));
        i = i + 1;
    }
    assert(ids@.take(n as int) =~= ids@);
    r
}

/// The keys of a tag list, in order.
pub open spec fn tag_keys(tags: Seq<Tag>) -> Seq<Seq<char>> {
    tags.map_values(|t: Tag| t.k@)
}

/// Whether `tags` holds a tag with key `key`.
pub open spec fn has_key(tags: Seq<Tag>, key: Seq<char>) -> bool {
    exists|i: int| 0 <= i < tags.len() && #[trigger] tags[i].k@ == key
}

/// An OSM node.
#[derive(Clone, Debug, PartialEq)]
pub struct Node {
    pub id: i64,
    pub version: i32,
    /// Latitude in 1e-7 degrees.
    pub lat7: i64,
    /// Longitude in 1e-7 degrees.
    pub lon7: i64,
    pub timestamp: i64,
    pub changeset: i64,
    pub uid: i32,
    pub user: String,
    pub visible: bool,
    pub tags: Vec<Tag>,
}

impl Node {
    pub fn version(&self) -> (r: i32)
        ensures
            r == self.version,
    {
        self.version
    }

    pub fn timestamp(&self) -> (r: i64)
        ensures
            r == self.timestamp,
    {
        self.timestamp
    }

    pub fn changeset(&self) -> (r: i64)
        ensures
            r == self.changeset,
    {
        self.changeset
    }

    pub fn uid(&self) -> (r: i32)
        ensures
            r == self.uid,
    {
        self.uid
    }

    pub fn visible(&self) -> (r: bool)
        ensures
            r == self.visible,
    {
        self.visible
    }

    pub fn lat7(&self) -> (r: i64)
        ensures
            r == self.lat7,
    {
        self.lat7
    }

    pub fn lon7(&self) -> (r: i64)
        ensures
            r == self.lon7,
    {
        self.lon7
    }

    pub fn user(&self) -> (r: &String)
        ensures
            r@ == self.user@,
    {
        &self.user
    }

    pub fn new(
        id: i64,
        version: i32,
        lat7: i64,
        lon7: i64,
        timestamp: i64,
        changeset: i64,
        uid: i32,
        user: String,
        visible: bool,
        tags: Vec<Tag>,
    ) -> (n: Node)
        ensures
            n.id == id,
            n.version == version,
            n.lat7 == lat7,
            n.lon7 == lon7,
            n.timestamp == timestamp,
            n.changeset == changeset,
            n.uid == uid,
            n.user@ == user@,
            n.visible == visible,
            n.tags@ == tags@,
    {
        Node { id, version, lat7, lon7, timestamp, changeset, uid, user, visible, tags }
    }

    pub fn id(&self) -> (r: i64)
        ensures
            r == self.id,
    {
        self.id
    }

    pub fn tags(&self) -> (r: &Vec<Tag>)
        ensures
            r@ == self.tags@,
    {
        &self.tags
    }

    pub fn tags_mut(&mut self) -> (r: &mut Vec<Tag>)
        ensures
            *r == old(self).tags,
            *final(self) == (Node { tags: *final(r), ..*old(self) }),
    {
        &mut self.tags
    }

    /// Takes the tags out of the node, leaving it without tags.
    pub fn take_tags(&mut self) -> (t: Vec<Tag>)
        ensures
            t == old(self).tags,
            *final(self) == (Node { tags: final(self).tags, ..*old(self) }),
            final(self).tags@ == Seq::<Tag>::empty(),
    {
        let mut t: Vec<Tag> = Vec::new();
        std::mem::swap(&mut t, &mut self.tags);
        t
    }
}

/// An OSM way: an ordered list of node references.
#[derive(Clone, Debug, PartialEq)]
pub struct Way {
    pub id: i64,
    pub version: i32,
    pub timestamp: i64,
    pub changeset: i64,
    pub uid: i32,
    pub user: String,
    pub visible: bool,
    pub refs: Vec<i64>,
    pub tags: Vec<Tag>,
}

impl Way {
    pub fn version(&self) -> (r: i32)
        ensures
            r == self.version,
    {
        self.version
    }

    pub fn timestamp(&self) -> (r: i64)
        ensures
            r == self.timestamp,
    {
        self.timestamp
    }

    pub fn changeset(&self) -> (r: i64)
        ensures
            r == self.changeset,
    {
        self.changeset
    }

    pub fn uid(&self) -> (r: i32)
        ensures
            r == self.uid,
    {
        self.uid
    }

    pub fn visible(&self) -> (r: bool)
        ensures
            r == self.visible,
    {
        self.visible
    }

    pub fn user(&self) -> (r: &String)
        ensures
            r@ == self.user@,
    {
        &self.user
    }

    pub fn new(
        id: i64,
        version: i32,
        timestamp: i64,
        changeset: i64,
        uid: i32,
        user: String,
        visible: bool,
        refs: Vec<i64>,
        tags: Vec<Tag>,
    ) -> (w: Way)
        ensures
            w.id == id,
            w.version == version,
            w.timestamp == timestamp,
            w.changeset == changeset,
            w.uid == uid,
            w.user@ == user@,
            w.visible == visible,
            w.refs@ == refs@,
            w.tags@ == tags@,
    {
        Way { id, version, timestamp, changeset, uid, user, visible, refs, tags }
    }

    pub fn id(&self) -> (r: i64)
        ensures
            r == self.id,
    {
        self.id
    }

    pub fn refs(&self) -> (r: &Vec<i64>)
        ensures
            r@ == self.refs@,
    {
        &self.refs
    }

    pub fn tags(&self) -> (r: &Vec<Tag>)
        ensures
            r@ == self.tags@,
    {
        &self.tags
    }
}

/// The referenced id and the role of a relation member.
#[derive(Clone, Debug, PartialEq)]
pub struct MemberData {
    pub id: i64,
    pub role: String,
}

impl MemberData {
    pub fn new(id: i64, role: String) -> (m: MemberData)
        ensures
            m.id == id,
            m.role@ == role@,
    {
        MemberData { id, role }
    }
}

/// A member of a relation, by the kind of element it references.
#[derive(Clone, Debug, PartialEq)]
pub enum Member {
    Node { member: MemberData },
    Way { member: MemberData },
    Relation { member: MemberData },
}

/// The id of the node a member references, if it references a node.
pub open spec fn member_node_id(m: Member) -> Option<i64> {
    match m {
        Member::Node { member } => Some(member.id),
        _ => None,
    }
}

/// An OSM relation.
#[derive(Clone, Debug, PartialEq)]
pub struct Relation {
    pub id: i64,
    pub version: i32,
    pub timestamp: i64,
    pub changeset: i64,
    pub uid: i32,
    pub user: String,
    pub visible: bool,
    pub members: Vec<Member>,
    pub tags: Vec<Tag>,
}

impl Relation {
    pub fn version(&self) -> (r: i32)
        ensures
            r == self.version,
    {
        self.version
    }

    pub fn timestamp(&self) -> (r: i64)
        ensures
            r == self.timestamp,
    {
        self.timestamp
    }

    pub fn changeset(&self) -> (r: i64)
        ensures
            r == self.changeset,
    {
        self.changeset
    }

    pub fn uid(&self) -> (r: i32)
        ensures
            r == self.uid,
    {
        self.uid
    }

    pub fn visible(&self) -> (r: bool)
        ensures
            r == self.visible,
    {
        self.visible
    }

    pub fn user(&self) -> (r: &String)
        ensures
            r@ == self.user@,
    {
        &self.user
    }

    pub fn new(
        id: i64,
        version: i32,
        timestamp: i64,
        changeset: i64,
        uid: i32,
        user: String,
        visible: bool,
        members: Vec<Member>,
        tags: Vec<Tag>,
    ) -> (r: Relation)
        ensures
            r.id == id,
            r.version == version,
            r.timestamp == timestamp,
            r.changeset == changeset,
            r.uid == uid,
            r.user@ == user@,
            r.visible == visible,
            r.members@ == members@,
            r.tags@ == tags@,
    {
        Relation { id, version, timestamp, changeset, uid, user, visible, members, tags }
    }

    pub fn id(&self) -> (r: i64)
        ensures
            r == self.id,
    {
        self.id
    }

    pub fn members(&self) -> (r: &Vec<Member>)
        ensures
            r@ == self.members@,
    {
        &self.members
    }

    pub fn tags(&self) -> (r: &Vec<Tag>)
        ensures
            r@ == self.tags@,
    {
        &self.tags
    }
}

/// One element of an OSM stream.
#[derive(Clone, Debug, PartialEq)]
pub enum Element {
    Node { node: Node },
    Way { way: Way },
    Relation { relation: Relation },
    Sentinel,
}

/// The label of an element in logs: its kind and id, such as `way#12`.
pub open spec fn element_id_text(e: Element) -> Seq<char> {
    match e {
        Element::Node { node } => "node#"@ + signed_dec(node.id as int),
        Element::Way { way } => "way#"@ + signed_dec(way.id as int),
        Element::Relation { relation } => "relation#"@ + signed_dec(relation.id as int),
        Element::Sentinel => "sentinel#!"@,
    }
}

/// The kind and id of an element, such as `node#42`.
pub fn format_element_id(element: &Element) -> (s: String)
    ensures
        s@ == element_id_text(*element),
{
    match element {
        Element::Node { node } => {
            let mut s = "node#".to_owned();
            s.append(i64_to_string(node.id).as_str());
            s
        },
        Element::Way { way } => {
            let mut s = "way#".to_owned();
            s.append(i64_to_string(way.id).as_str());
            s
        },
        Element::Relation { relation } => {
            let mut s = "relation#".to_owned();
            s.append(i64_to_string(relation.id).as_str());
            s
        },
        Element::Sentinel => "sentinel#!".to_owned(),
    }
}

pub fn into_node_element(node: Node) -> (e: Element)
    ensures
        e == (Element::Node { node }),
{
    Element::Node { node }
}

pub fn into_way_element(way: Way) -> (e: Element)
    ensures
        e == (Element::Way { way }),
{
    Element::Way { way }
}

pub fn into_relation_element(relation: Relation) -> (e: Element)
    ensures
        e == (Element::Relation { relation }),
{
    Element::Relation { relation }
}

pub fn into_vec_node_element(node: Node) -> (v: Vec<Element>)
    ensures
        v@ == seq![Element::Node { node }],
{
    let mut v = Vec::new();
    v.push(into_node_element(node));
    v
}

pub fn into_vec_way_element(way: Way) -> (v: Vec<Element>)
    ensures
        v@ == seq![Element::Way { way }],
{
    let mut v = Vec::new();
    v.push(into_way_element(way));
    v
}

pub fn into_vec_relation_element(relation: Relation) -> (v: Vec<Element>)
    ensures
        v@ == seq![Element::Relation { relation }],
{
    let mut v = Vec::new();
    v.push(into_relation_element(relation));
    v
}

} // verus!
