//! Which kinds of OSM elements a handler works on.

use vstd::prelude::*;

verus! {

/// A selection of element kinds: nodes, ways, relations.
pub struct OsmElementTypeSelection {
    pub node: bool,
    pub way: bool,
    pub relation: bool,
}

impl OsmElementTypeSelection {
    pub fn all() -> (s: Self)
        ensures
            s.node && s.way && s.relation,
    {
        Self { node: true, way: true, relation: true }
    }

    pub fn node_only() -> (s: Self)
        ensures
            s.node && !s.way && !s.relation,
    {
        Self { node: true, way: false, relation: false }
    }

    pub fn way_only() -> (s: Self)
        ensures
            !s.node && s.way && !s.relation,
    {
        Self { node: false, way: true, relation: false }
    }

    pub fn relation_only() -> (s: Self)
        ensures
            !s.node && !s.way && s.relation,
    {
        Self { node: false, way: false, relation: true }
    }

    pub fn way_relation() -> (s: Self)
        ensures
            !s.node && s.way && s.relation,
    {
        Self { node: false, way: true, relation: true }
    }

    pub fn none() -> (s: Self)
        ensures
            !s.node && !s.way && !s.relation,
    {
        Self { node: false, way: false, relation: false }
    }
}

} // verus!
