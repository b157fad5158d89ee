//! Country tagging of nodes from a grid index of one-degree cells.
//!
//! Each cell of the index holds 0 (no country), the id of the one country
//! covering it, or `AREA_ID_MULTIPLE` when several countries share it; in
//! that case the caller tests the node against the shapes in the cell.

use vstd::prelude::*;
use std::collections::HashMap;
use crate::model::{Node, Tag};
use crate::handler::HandlerData;

verus! {

broadcast use vstd::std_specs::hash::group_hash_axioms;

/// The number of one-degree cells of the grid: 180 rows of 360 cells.
pub const GRID_SIZE: usize = 64800;

/// The cell value of cells shared by several countries.
pub const AREA_ID_MULTIPLE: u16 = 65535;

/// 1e7: coordinates are held in units of 1e-7 degrees.
pub const DEGREE: i64 = 10_000_000;

/// Whole degrees of `c`, rounded toward zero.
pub open spec fn whole_degrees(c: i64) -> int {
    if c >= 0 { c as int / 10_000_000 } else { -((-(c as int)) / 10_000_000) }
}

/// The grid position of a coordinate: row by whole degrees of latitude from
/// the south pole, column by whole degrees of longitude from the date line.
/// Nodes at the poles have none.
pub open spec fn grid_position(lat7: i64, lon7: i64) -> Option<int> {
    if lat7 >= 900_000_000 || lat7 <= -900_000_000 {
        None
    } else {
        Some((whole_degrees(lat7) + 90) * 360 + whole_degrees(lon7) + 180)
    }
}

/// Whole degrees of `c`, rounded toward zero.
fn whole_degrees_of(c: i64) -> (d: i64)
    ensures
        d == whole_degrees(c),
{
    if c >= 0 {
        c / DEGREE
    } else if c == i64::MIN {
        -(((-(c + DEGREE)) / DEGREE) + 1)
    } else {
        -((-c) / DEGREE)
    }
}

/// The grid position of a coordinate, `None` at the poles.
pub fn grid_index(lat7: i64, lon7: i64) -> (r: Option<i64>)
    ensures
        match grid_position(lat7, lon7) {
            None => r is None,
            Some(p) => r == Some(p as i64),
        },
{
    if lat7 >= 900_000_000 || lat7 <= -900_000_000 {
        None
    } else {
        let row = whole_degrees_of(lat7) + 90;
        let col = whole_degrees_of(lon7) + 180;
        assert(-1000000000000 <= whole_degrees(lon7) <= 1000000000000);
        Some(row * 360 + col)
    }
}

/// The ids joined by commas.
pub open spec fn join_comma(ids: Seq<Seq<char>>) -> Seq<char>
    decreases ids.len(),
{
    if ids.len() == 0 {
        Seq::empty()
    } else if ids.len() == 1 {
        ids[0]
    } else {
        join_comma(ids.drop_last()) + ","@ + ids.last()
    }
}

/// The strings joined by commas.
pub fn join_with_comma(ids: &Vec<String>) -> (s: String)
    ensures
        s@ == join_comma(ids@.map_values(|x: String| x@)),
{
    let ghost v = ids@.map_values(|x: String| x@);
    let n = ids.len();
    let mut s = String::new();
    let mut i: usize = 0;
    while i < n
        invariant
            n == ids@.len(),
            v == ids@.map_values(|x: String| x@),
            i <= n,
            s@ == join_comma(v.take(i as int)),
        decreases n - i,
    {
        proof {
            assert(v.take(i + 1).drop_last() =~= v.take(i as int));
            assert(v.take(i + 1).last() == ids@[i as int]@);
        }
        if i > 0 {
            s.append(",");
        } else {
            assert(v.take(0) =~= Seq::<Seq<char>>::empty());
        }
        s.append(ids[i].as_str());
        i = i + 1;
    }
    assert(v.take(n as int) =~= v);
    s
}

/// The shape recorded for a country in a shared cell.
#[derive(PartialEq, Eq, Structural)]
pub enum CellShape {
    /// The whole cell.
    WholeTile,
    /// The part of the country inside the cell.
    Intersection,
}

/// How adding a country changes a grid cell: its new value and the shapes
/// to record for the cell.
pub struct CellChange {
    pub value: u16,
    pub added: Vec<(u16, CellShape)>,
}

/// What adding country `country` to a cell holding `current` gives, where
/// `contains_tile` says whether the country covers the whole cell and
/// `intersection_empty` whether it shares nothing with it.
pub open spec fn cell_change_of(current: u16, country: u16, contains_tile: bool, intersection_empty: bool)
    -> (u16, Seq<(u16, CellShape)>)
{
    if contains_tile && current == 0 {
        (country, Seq::empty())
    } else if intersection_empty {
        (current, Seq::empty())
    } else if current != 0 && current != 65535 {
        (65535u16, seq![(current, CellShape::WholeTile), (country, CellShape::Intersection)])
    } else {
        (65535u16, seq![(country, CellShape::Intersection)])
    }
}

/// A country covering a free cell takes it; otherwise a country that
/// reaches into the cell makes it shared, and the country that had the cell
/// alone keeps the whole cell as its shape.
pub fn cell_change(current: u16, country: u16, contains_tile: bool, intersection_empty: bool) -> (c: CellChange)
    ensures
        (c.value, c.added@) == cell_change_of(current, country, contains_tile, intersection_empty),
{
    let mut added: Vec<(u16, CellShape)> = Vec::new();
    if contains_tile && current == 0 {
        assert(added@ =~= Seq::<(u16, CellShape)>::empty());
        CellChange { value: country, added }
    } else if intersection_empty {
        assert(added@ =~= Seq::<(u16, CellShape)>::empty());
        CellChange { value: current, added }
    } else {
        if current != 0 && current != AREA_ID_MULTIPLE {
            added.push((current, CellShape::WholeTile));
        }
        added.push((country, CellShape::Intersection));
        proof {
            if current != 0 && current != 65535 {
                assert(added@ =~= seq![(current, CellShape::WholeTile), (country, CellShape::Intersection)]);
            } else {
                assert(added@ =~= seq![(country, CellShape::Intersection)]);
            }
        }
        CellChange { value: AREA_ID_MULTIPLE, added }
    }
}

/// The grid index of countries and the countries' ids.
pub struct CountryTagger {
    /// The cell values, one per grid cell.
    pub index: Vec<u16>,
    /// The country ids by their number.
    pub ids: HashMap<u16, String>,
    pub country_found_node_count: u64,
    pub country_not_found_node_count: u64,
}

/// The ids of `areas`.
pub open spec fn area_ids(ids: Map<u16, String>, areas: Seq<u16>) -> Seq<Seq<char>> {
    areas.map_values(|a: u16| ids[a]@)
}

/// What tagging a node gives: the ids of the countries it lies in.
pub open spec fn countries_of(t: CountryTagger, cell: int, intersecting: Seq<u16>) -> Seq<Seq<char>> {
    let v = t.index@[cell];
    if v == 0 {
        Seq::empty()
    } else if v == 65535 {
        area_ids(t.ids@, intersecting)
    } else {
        seq![t.ids@[v]@]
    }
}

impl CountryTagger {
    pub fn new(index: Vec<u16>, ids: HashMap<u16, String>) -> (t: Self)
        ensures
            t.index@ == index@,
            t.ids@ == ids@,
            t.country_found_node_count == 0,
            t.country_not_found_node_count == 0,
    {
        CountryTagger { index, ids, country_found_node_count: 0, country_not_found_node_count: 0 }
    }

    /// The cell value for a coordinate: `None` at the poles and outside the grid.
    pub fn cell_value(&self, lat7: i64, lon7: i64) -> (r: Option<u16>)
        ensures
            match grid_position(lat7, lon7) {
                Some(p) => 0 <= p < self.index@.len() ==> r == Some(self.index@[p]),
                None => r is None,
            },
    {
        match grid_index(lat7, lon7) {
            Some(p) => {
                if p >= 0 && (p as u64) < (self.index.len() as u64) {
                    Some(self.index[p as usize])
                } else {
                    None
                }
            },
            None => None,
        }
    }

    /// Tags `node` with the countries it lies in and counts it as found or
    /// not found. `intersecting` are the countries whose shapes in a shared
    /// cell contain the node. Nodes at the poles are left alone.
    pub fn tag_node(&mut self, node: &mut Node, intersecting: &Vec<u16>)
        requires
            grid_position(old(node).lat7, old(node).lon7) matches Some(p) ==> {
                &&& 0 <= p < old(self).index@.len()
                &&& {
                    let v = old(self).index@[p];
                    &&& (v != 0 && v != 65535 ==> old(self).ids@.contains_key(v))
                    &&& (v == 65535 ==> forall|i: int| 0 <= i < intersecting@.len() ==> old(self).ids@.contains_key(#[trigger] intersecting@[i]))
                }
            },
        ensures
            final(self).index == old(self).index,
            final(self).ids == old(self).ids,
            match grid_position(old(node).lat7, old(node).lon7) {
                None => *final(node) == *old(node) && *final(self) == *old(self),
                Some(p) => {
                    let found = countries_of(*old(self), p, intersecting@);
                    &&& (old(self).index@[p] == 0 ==> final(self).country_not_found_node_count
                        == old(self).country_not_found_node_count.wrapping_add(1)
                        && final(self).country_found_node_count == old(self).country_found_node_count)
                    &&& (old(self).index@[p] != 0 ==> final(self).country_found_node_count
                        == old(self).country_found_node_count.wrapping_add(1)
                        && final(self).country_not_found_node_count == old(self).country_not_found_node_count)
                    &&& (found.len() == 0 ==> *final(node) == *old(node))
                    &&& (found.len() > 0 ==> {
                        &&& *final(node) == (Node { tags: final(node).tags, ..*old(node) })
                        &&& final(node).tags@.drop_last() == old(node).tags@
                        &&& final(node).tags@.len() == old(node).tags@.len() + 1
                        &&& final(node).tags@.last().k@ == "country"@
                        &&& final(node).tags@.last().v@ == join_comma(found)
                    })
                },
            },
    {
        let ghost gp = grid_position(node.lat7, node.lon7);
        let pi = match grid_index(node.lat7, node.lon7) {
            Some(p) => p,
            None => return,
        };
        assert(gp == Some(pi as int));
        assert(grid_position(old(node).lat7, old(node).lon7) == Some(pi as int));
        let len = self.index.len();
        assert(0 <= pi < len);
        let p = pi as usize;
        assert(p as int == pi as int);
        let v = self.index[p];
        assert(v == old(self).index@[pi as int]);
        let mut names: Vec<String> = Vec::new();
        if v == 0 {
            self.country_not_found_node_count = self.country_not_found_node_count.wrapping_add(1);
        } else if v == AREA_ID_MULTIPLE {
            self.country_found_node_count = self.country_found_node_count.wrapping_add(1);
            let n = intersecting.len();
            let mut i: usize = 0;
            while i < n
                invariant
                    n == intersecting@.len(),
                    i <= n,
                    forall|j: int| 0 <= j < n ==> self.ids@.contains_key(#[trigger] intersecting@[j]),
                    names@.map_values(|x: String| x@) == area_ids(self.ids@, intersecting@.take(i as int)),
                decreases n - i,
            {
                let a = intersecting[i];
                assert(self.ids@.contains_key(a));
                let name = self.ids.get(&a).unwrap().clone();
                assert(name@ == self.ids@[a]@);
                let ghost before = names@;
                names.push(name);
                proof {
                    assert(intersecting@.take(i + 1) =~= intersecting@.take(i as int).push(a));
                    assert(area_ids(self.ids@, intersecting@.take(i + 1))
                        =~= area_ids(self.ids@, intersecting@.take(i as int)).push(self.ids@[a]@));
                    assert(names@.map_values(|x: String| x@) =~= before.map_values(|x: String| x@).push(name@));
                }
                i = i + 1;
            }
            assert(intersecting@.take(n as int) =~= intersecting@);
        } else {
            self.country_found_node_count = self.country_found_node_count.wrapping_add(1);
            assert(self.ids@.contains_key(v));
            let name = self.ids.get(&v).unwrap().clone();
            names.push(name);
            assert(names@.map_values(|x: String| x@) =~= seq![self.ids@[v]@]);
        }
        if names.len() > 0 {
            let value = join_with_comma(&names);
            node.tags.push(Tag { k: "country".to_owned(), v: value });
            assert(node.tags@.drop_last() =~= old(node).tags@);
        }
    }

    /// Records the counts in the statistics.
    pub fn record(&self, data: &mut HandlerData)
        ensures
            *final(data) == (HandlerData {
                country_found_node_count: self.country_found_node_count,
                country_not_found_node_count: self.country_not_found_node_count,
                ..*old(data)
            }),
    {
        data.country_found_node_count = self.country_found_node_count;
        data.country_not_found_node_count = self.country_not_found_node_count;
    }
}

/// What adding a country (numbered from 1, below `AREA_ID_MULTIPLE`) to a
/// grid cell does, whatever the cell held:
/// - a cell is given to a single country only when the cell was free and
///   that country covers the whole cell; a country that covers only part of
///   a cell makes the cell shared;
/// - a country that reaches into a cell is found again there: the cell is
///   its alone, or the cell is shared and the country's part is the last
///   shape recorded;
/// - a country that had a cell alone and is joined by another keeps the whole
///   cell, recorded first;
/// - a country that does not reach into a cell changes nothing;
/// - shapes are recorded only for shared cells, at most two at a time.
pub proof fn lemma_cell_change_laws(current: u16, country: u16, contains_tile: bool, intersection_empty: bool)
    requires
        0 < country < AREA_ID_MULTIPLE,
        contains_tile ==> !intersection_empty,
    ensures
        ({
            let (v, a) = cell_change_of(current, country, contains_tile, intersection_empty);
            &&& (v != current && v != AREA_ID_MULTIPLE) ==> (contains_tile && current == 0 && v == country)
            &&& (current == 0 && !contains_tile && !intersection_empty) ==> (v == AREA_ID_MULTIPLE
                && a == seq![(country, CellShape::Intersection)])
            &&& !intersection_empty ==> ((v == country && contains_tile && current == 0 && a.len() == 0)
                || (v == AREA_ID_MULTIPLE && a.len() > 0 && a.last() == (country, CellShape::Intersection)))
            &&& (current != 0 && current != AREA_ID_MULTIPLE && !intersection_empty) ==> (v == AREA_ID_MULTIPLE
                && a == seq![(current, CellShape::WholeTile), (country, CellShape::Intersection)])
            &&& intersection_empty ==> (v == current && a.len() == 0)
            &&& a.len() > 0 ==> v == AREA_ID_MULTIPLE
            &&& a.len() <= 2
        }),
{
}

} // verus!
