//! Editable copies of nodes and ways.

use vstd::prelude::*;
use crate::model::{Node, Way, Tag, clone_tags, clone_ids};

verus! {

/// A node taken apart for editing.
pub struct MutableNode {
    pub id: i64,
    pub version: i32,
    pub lat7: i64,
    pub lon7: i64,
    pub timestamp: i64,
    pub changeset: i64,
    pub uid: i32,
    pub user: String,
    pub visible: bool,
    pub tags: Vec<Tag>,
}

impl MutableNode {
    /// Copies the fields of `node` and takes its tags, which leaves `node` without tags.
    pub fn new(node: &mut Node) -> (m: MutableNode)
        ensures
            m.id == old(node).id,
            m.version == old(node).version,
            m.lat7 == old(node).lat7,
            m.lon7 == old(node).lon7,
            m.timestamp == old(node).timestamp,
            m.changeset == old(node).changeset,
            m.uid == old(node).uid,
            m.user@ == old(node).user@,
            m.visible == old(node).visible,
            m.tags@ == old(node).tags@,
            *final(node) == (Node { tags: final(node).tags, ..*old(node) }),
            final(node).tags@ == Seq::<Tag>::empty(),
    {
        let user = node.user.clone();
        let tags = node.take_tags();
        MutableNode {
            id: node.id,
            version: node.version,
            lat7: node.lat7,
            lon7: node.lon7,
            timestamp: node.timestamp,
            changeset: node.changeset,
            uid: node.uid,
            user,
            visible: node.visible,
            tags,
        }
    }

    pub fn id(&self) -> (r: i64)
        ensures
            r == self.id,
    {
        self.id
    }

    pub fn version(&self) -> (r: i32)
        ensures
            r == self.version,
    {
        self.version
    }

    /// Latitude and longitude, in 1e-7 degrees.
    pub fn coordinate(&self) -> (r: (i64, i64))
        ensures
            r == (self.lat7, self.lon7),
    {
        (self.lat7, self.lon7)
    }

    pub fn timestamp(&self) -> (r: i64)
        ensures
            r == self.timestamp,
    {
        self.timestamp
    }

    pub fn changeset(&self) -> (r: i64)
        ensures
            r == self.changeset,
    {
        self.changeset
    }

    pub fn uid(&self) -> (r: i32)
        ensures
            r == self.uid,
    {
        self.uid
    }

    pub fn user(&self) -> (r: &String)
        ensures
            r@ == self.user@,
    {
        &self.user
    }

    /// Takes the user out, leaving an empty one.
    pub fn take_user(&mut self) -> (u: String)
        ensures
            u@ == old(self).user@,
            final(self).user@ == Seq::<char>::empty(),
            *final(self) == (MutableNode { user: final(self).user, ..*old(self) }),
    {
        let mut u = String::new();
        std::mem::swap(&mut u, &mut self.user);
        u
    }

    pub fn visible(&self) -> (r: bool)
        ensures
            r == self.visible,
    {
        self.visible
    }

    pub fn tags(&self) -> (r: &Vec<Tag>)
        ensures
            r@ == self.tags@,
    {
        &self.tags
    }

    pub fn tags_mut(&mut self) -> (r: &mut Vec<Tag>)
        ensures
            *r == old(self).tags,
            *final(self) == (MutableNode { tags: *final(r), ..*old(self) }),
    {
        &mut self.tags
    }

    /// Takes the tags out, leaving none.
    pub fn take_tags(&mut self) -> (t: Vec<Tag>)
        ensures
            t == old(self).tags,
            final(self).tags@ == Seq::<Tag>::empty(),
            *final(self) == (MutableNode { tags: final(self).tags, ..*old(self) }),
    {
        let mut t: Vec<Tag> = Vec::new();
        std::mem::swap(&mut t, &mut self.tags);
        t
    }

    /// A node with the current fields; the tags and user are copied.
    pub fn make_node(&self) -> (n: Node)
        ensures
            n.id == self.id,
            n.version == self.version,
            n.lat7 == self.lat7,
            n.lon7 == self.lon7,
            n.timestamp == self.timestamp,
            n.changeset == self.changeset,
            n.uid == self.uid,
            n.user@ == self.user@,
            n.visible == self.visible,
            n.tags@ == self.tags@,
    {
        Node::new(
            self.id,
            self.version,
            self.lat7,
            self.lon7,
            self.timestamp,
            self.changeset,
            self.uid,
            self.user.clone(),
            self.visible,
            clone_tags(&self.tags),
        )
    }
}

/// A way together with the fields to change in a copy of it.
pub struct MutableWay<'a> {
    pub way: &'a Way,
    pub id: Option<i64>,
    pub version: Option<i32>,
    pub timestamp: Option<i64>,
    pub changeset: Option<i64>,
    pub uid: Option<i32>,
    pub user: Option<String>,
    pub visible: Option<bool>,
    pub refs: Option<Vec<i64>>,
    pub tags: Option<Vec<Tag>>,
}

/// The value of a field: the change if there is one, else the original.
pub open spec fn changed_or<T>(change: Option<T>, original: T) -> T {
    match change {
        Some(v) => v,
        None => original,
    }
}

/// `w` is the way `m` builds: each field is the change if there is one, else
/// the field of the original way.
pub open spec fn builds(m: MutableWay, w: Way) -> bool {
    &&& w.id == changed_or(m.id, m.way.id)
    &&& w.version == changed_or(m.version, m.way.version)
    &&& w.timestamp == changed_or(m.timestamp, m.way.timestamp)
    &&& w.changeset == changed_or(m.changeset, m.way.changeset)
    &&& w.uid == changed_or(m.uid, m.way.uid)
    &&& w.user@ == (match m.user { Some(u) => u@, None => m.way.user@ })
    &&& w.visible == changed_or(m.visible, m.way.visible)
    &&& w.refs@ == (match m.refs { Some(r) => r@, None => m.way.refs@ })
    &&& w.tags@ == (match m.tags { Some(t) => t@, None => m.way.tags@ })
}

/// No field of `m` is changed.
pub open spec fn unchanged(m: MutableWay) -> bool {
    &&& m.id is None
    &&& m.version is None
    &&& m.timestamp is None
    &&& m.changeset is None
    &&& m.uid is None
    &&& m.user is None
    &&& m.visible is None
    &&& m.refs is None
    &&& m.tags is None
}

/// `a` and `b` hold the same values in every field.
pub open spec fn same_way(a: Way, b: Way) -> bool {
    &&& a.id == b.id
    &&& a.version == b.version
    &&& a.timestamp == b.timestamp
    &&& a.changeset == b.changeset
    &&& a.uid == b.uid
    &&& a.user@ == b.user@
    &&& a.visible == b.visible
    &&& a.refs@ == b.refs@
    &&& a.tags@ == b.tags@
}

impl<'a> MutableWay<'a> {
    /// A copy of `way` with nothing changed yet.
    pub fn new(way: &'a Way) -> (m: MutableWay<'a>)
        ensures
            *m.way == *way,
            unchanged(m),
    {
        MutableWay {
            way,
            id: None,
            version: None,
            timestamp: None,
            changeset: None,
            uid: None,
            user: None,
            visible: None,
            refs: None,
            tags: None,
        }
    }

    pub fn set_id(self, id: i64) -> (m: Self)
        ensures
            m == (MutableWay { id: Some(id), ..self }),
    {
        MutableWay { id: Some(id), ..self }
    }

    pub fn set_version(self, version: i32) -> (m: Self)
        ensures
            m == (MutableWay { version: Some(version), ..self }),
    {
        MutableWay { version: Some(version), ..self }
    }

    pub fn set_timestamp(self, timestamp: i64) -> (m: Self)
        ensures
            m == (MutableWay { timestamp: Some(timestamp), ..self }),
    {
        MutableWay { timestamp: Some(timestamp), ..self }
    }

    pub fn set_changeset(self, changeset: i64) -> (m: Self)
        ensures
            m == (MutableWay { changeset: Some(changeset), ..self }),
    {
        MutableWay { changeset: Some(changeset), ..self }
    }

    pub fn set_uid(self, uid: i32) -> (m: Self)
        ensures
            m == (MutableWay { uid: Some(uid), ..self }),
    {
        MutableWay { uid: Some(uid), ..self }
    }

    pub fn set_user(self, user: String) -> (m: Self)
        ensures
            m == (MutableWay { user: Some(user), ..self }),
    {
        MutableWay { user: Some(user), ..self }
    }

    pub fn set_visible(self, visible: bool) -> (m: Self)
        ensures
            m == (MutableWay { visible: Some(visible), ..self }),
    {
        MutableWay { visible: Some(visible), ..self }
    }

    pub fn set_refs(self, refs: Vec<i64>) -> (m: Self)
        ensures
            m == (MutableWay { refs: Some(refs), ..self }),
    {
        MutableWay { refs: Some(refs), ..self }
    }

    pub fn set_tags(self, tags: Vec<Tag>) -> (m: Self)
        ensures
            m == (MutableWay { tags: Some(tags), ..self }),
    {
        MutableWay { tags: Some(tags), ..self }
    }

    /// The way with the changes applied; unchanged fields are copied from the original.
    pub fn build(self) -> (w: Way)
        ensures
            builds(self, w),
    {
        let MutableWay { way, id, version, timestamp, changeset, uid, user, visible, refs, tags } = self;
        let user = match user {
            Some(u) => u,
            None => way.user.clone(),
        };
        let refs = match refs {
            Some(r) => r,
            None => clone_ids(&way.refs),
        };
        let tags = match tags {
            Some(t) => t,
            None => clone_tags(&way.tags),
        };
        Way::new(
            match id { Some(v) => v, None => way.id },
            match version { Some(v) => v, None => way.version },
            match timestamp { Some(v) => v, None => way.timestamp },
            match changeset { Some(v) => v, None => way.changeset },
            match uid { Some(v) => v, None => way.uid },
            user,
            match visible { Some(v) => v, None => way.visible },
            refs,
            tags,
        )
    }
}

/// Building a copy without changes gives back the original way.
pub proof fn lemma_build_unchanged_is_original(m: MutableWay, w: Way)
    requires
        unchanged(m),
        builds(m, w),
    ensures
        same_way(w, *m.way),
{
}

/// A changed id is the only difference to the original way.
pub proof fn lemma_build_with_id_changes_only_id(m: MutableWay, id: i64, w: Way)
    requires
        unchanged(m),
        builds(MutableWay { id: Some(id), ..m }, w),
    ensures
        w.id == id,
        same_way(Way { id: m.way.id, ..w }, *m.way),
{
}

} // verus!
