//! The tile bookkeeping of elevation lookups in PMTiles archives.
//!
//! Elevation archives are named `<zoom>-<x>-<y>.pmtiles` after the tile at
//! zoom 6 that they cover. A node is looked up at the highest zoom its
//! archive offers and then at lower zooms down to 13; tiles that turned out
//! to be missing are remembered and not asked for again.

use vstd::prelude::*;
use std::collections::{HashMap, HashSet};
use crate::handler::HandlerData;
use crate::buffer_pool::{BufferPool, Batch, add_keeps_some, add_limited_result, batch_view, batches_view};
use crate::model::{Node, Tag};
use crate::elevation::with_elevation;

verus! {

broadcast use vstd::std_specs::hash::group_hash_axioms;

/// The zoom at which archives cover the world.
pub const ARCHIVE_ZOOM: u8 = 6;

/// The lowest zoom at which elevation is looked up.
pub const MIN_LOOKUP_ZOOM: u8 = 13;

/// The zoom used for nodes that no archive covers.
pub const PLANET_ZOOM: u8 = 12;

// ---------------------------------------------------------------------------
// Splitting and number parsing

/// `s` split at every `c`, as `str::split` does: empty fields included.
pub open spec fn split_char(s: Seq<char>, c: char) -> Seq<Seq<char>>
    decreases s.len(),
{
    if s.len() == 0 {
        seq![Seq::<char>::empty()]
    } else {
        let r = split_char(s.drop_last(), c);
        if s.last() == c {
            r.push(Seq::<char>::empty())
        } else {
            r.update(r.len() - 1, r.last().push(s.last()))
        }
    }
}

/// Splitting yields at least one field.
pub proof fn lemma_split_char_nonempty(s: Seq<char>, c: char)
    ensures
        split_char(s, c).len() >= 1,
    decreases s.len(),
{
    if s.len() > 0 {
        lemma_split_char_nonempty(s.drop_last(), c);
    }
}

/// Whether `ch` is an ASCII digit.
pub open spec fn is_digit(ch: char) -> bool {
    '0' <= ch && ch <= '9'
}

/// The number that the digits of `s` denote.
pub open spec fn digits_value(s: Seq<char>) -> nat
    decreases s.len(),
{
    if s.len() == 0 {
        0
    } else {
        digits_value(s.drop_last()) * 10 + ((s.last() as int) - ('0' as int)) as nat
    }
}

/// All characters of `s` are digits.
pub open spec fn all_digits(s: Seq<char>) -> bool {
    forall|i: int| 0 <= i < s.len() ==> is_digit(#[trigger] s[i])
}

/// `s` without one leading `+`.
pub open spec fn unsigned_digits(s: Seq<char>) -> Seq<char> {
    if s.len() > 0 && s[0] == '+' { s.drop_first() } else { s }
}

/// What `str::parse::<u32>` gives: an optional `+` followed by at least one
/// digit, denoting a number that fits in `u32`.
pub open spec fn parse_u32(s: Seq<char>) -> Option<u32> {
    let d = unsigned_digits(s);
    if d.len() > 0 && all_digits(d) && digits_value(d) <= u32::MAX {
        Some(digits_value(d) as u32)
    } else {
        None
    }
}

/// More digits never make a smaller number.
pub proof fn lemma_digits_value_prefix(s: Seq<char>, k: int)
    requires
        0 <= k <= s.len(),
        all_digits(s),
    ensures
        digits_value(s.take(k)) <= digits_value(s),
    decreases s.len() - k,
{
    if k < s.len() {
        lemma_digits_value_prefix(s, k + 1);
        assert(s.take(k + 1).drop_last() =~= s.take(k));
        assert(is_digit(s[k]));
        assert(s.take(k + 1).last() == s[k]);
        assert(digits_value(s.take(k + 1)) == digits_value(s.take(k)) * 10 + ((s[k] as int) - ('0' as int)) as nat);
    } else {
        assert(s.take(k) =~= s);
    }
}

/// Parses a decimal number as `str::parse::<u32>` does.
pub fn parse_u32_str(s: &str) -> (r: Option<u32>)
    ensures
        r == parse_u32(s@),
{
    let n = s.unicode_len();
    let mut start: usize = 0;
    if n > 0 && s.get_char(0) == '+' {
        start = 1;
    }
    let ghost d = unsigned_digits(s@);
    assert(d =~= s@.skip(start as int));
    if start == n {
        return None;
    }
    let mut acc: u64 = 0;
    let mut i: usize = start;
    while i < n
        invariant
            n == s@.len(),
            start <= i <= n,
            d == s@.skip(start as int),
            d == unsigned_digits(s@),
            d.len() > 0,
            acc == digits_value(d.take(i - start)),
            acc <= u32::MAX,
            all_digits(d.take(i - start)),
        decreases n - i,
    {
        let ch = s.get_char(i);
        let ghost k = i - start;
        assert(d[k] == ch);
        if ch < '0' || ch > '9' {
            assert(!all_digits(d)) by {
                assert(!is_digit(d[k]));
            }
            return None;
        }
        assert(d.take(k + 1).drop_last() =~= d.take(k));
        assert(d.take(k + 1).last() == ch);
        let digit = (ch as u32 - '0' as u32) as u64;
        acc = acc * 10 + digit;
        assert(all_digits(d.take(k + 1))) by {
            assert forall|j: int| 0 <= j < k + 1 implies is_digit(#[trigger] d.take(k + 1)[j]) by {
                if j < k {
                    assert(d.take(k + 1)[j] == d.take(k)[j]);
                }
            }
        }
        if acc > 0xffff_ffff {
            proof {
                if all_digits(d) {
                    lemma_digits_value_prefix(d, k + 1);
                }
            }
            return None;
        }
        i = i + 1;
    }
    assert(d.take(n - start) =~= d);
    Some(acc as u32)
}

/// The characters of `s` before the first `c`: the first field of splitting at `c`.
pub fn first_field(s: &str, c: char) -> (r: String)
    ensures
        r@ == split_char(s@, c)[0],
{
    let n = s.unicode_len();
    let mut r = String::new();
    let mut i: usize = 0;
    proof {
        lemma_split_char_nonempty(s@, c);
    }
    while i < n
        invariant
            n == s@.len(),
            i <= n,
            r@ == s@.take(i as int),
            forall|j: int| 0 <= j < i ==> #[trigger] s@[j] != c,
        decreases n - i,
    {
        let ch = s.get_char(i);
        if ch == c {
            proof {
                lemma_first_field_stops(s@, c, i as int);
            }
            return r;
        }
        crate::text::push_char(&mut r, ch);
        assert(r@ =~= s@.take(i + 1));
        i = i + 1;
    }
    proof {
        lemma_first_field_whole(s@, c);
        assert(s@.take(n as int) =~= s@);
    }
    r
}

/// Without `c` in `s`, the first field is all of `s`.
pub proof fn lemma_first_field_whole(s: Seq<char>, c: char)
    requires
        forall|j: int| 0 <= j < s.len() ==> #[trigger] s[j] != c,
    ensures
        split_char(s, c).len() == 1,
        split_char(s, c)[0] == s,
    decreases s.len(),
{
    if s.len() > 0 {
        lemma_first_field_whole(s.drop_last(), c);
        assert(s.drop_last().push(s.last()) =~= s);
    }
}

/// The first field ends at the first `c`.
pub proof fn lemma_first_field_stops(s: Seq<char>, c: char, i: int)
    requires
        0 <= i < s.len(),
        s[i] == c,
        forall|j: int| 0 <= j < i ==> #[trigger] s[j] != c,
    ensures
        split_char(s, c)[0] == s.take(i),
    decreases s.len(),
{
    lemma_split_char_nonempty(s, c);
    if s.len() == i + 1 {
        lemma_first_field_whole(s.take(i), c);
        assert(s.drop_last() =~= s.take(i));
    } else {
        lemma_first_field_stops(s.drop_last(), c, i);
        lemma_split_char_nonempty(s.drop_last(), c);
        let r = split_char(s.drop_last(), c);
        assert(s.drop_last().take(i) =~= s.take(i));
        if s.last() != c {
            lemma_split_first_after(s.drop_last(), c, i);
        }
    }
}

/// Once a `c` was seen, later characters only change later fields.
pub proof fn lemma_split_first_after(s: Seq<char>, c: char, i: int)
    requires
        0 <= i < s.len(),
        s[i] == c,
    ensures
        split_char(s, c).len() >= 2,
    decreases s.len(),
{
    lemma_split_char_nonempty(s.drop_last(), c);
    if s.len() > i + 1 {
        lemma_split_first_after(s.drop_last(), c, i);
    } else {
        assert(s.last() == c);
    }
}

/// `s` split at every `c`.
pub fn split_fields(s: &str, c: char) -> (r: Vec<String>)
    ensures
        r@.map_values(|f: String| f@) == split_char(s@, c),
{
    let n = s.unicode_len();
    let mut fields: Vec<String> = Vec::new();
    let mut cur = String::new();
    let mut i: usize = 0;
    while i < n
        invariant
            n == s@.len(),
            i <= n,
            fields@.map_values(|f: String| f@).push(cur@) == split_char(s@.take(i as int), c),
        decreases n - i,
    {
        let ch = s.get_char(i);
        let ghost before = fields@.map_values(|f: String| f@).push(cur@);
        proof {
            assert(s@.take(i + 1).drop_last() =~= s@.take(i as int));
            assert(s@.take(i + 1).last() == ch);
        }
        if ch == c {
            let mut done = String::new();
            std::mem::swap(&mut done, &mut cur);
            fields.push(done);
            assert(fields@.map_values(|f: String| f@).push(cur@) =~= before.push(Seq::<char>::empty()));
        } else {
            crate::text::push_char(&mut cur, ch);
            assert(fields@.map_values(|f: String| f@).push(cur@)
                =~= before.update(before.len() - 1, before.last().push(ch)));
        }
        i = i + 1;
    }
    assert(s@.take(n as int) =~= s@);
    fields.push(cur);
    fields
}

// ---------------------------------------------------------------------------
// Archive names and the map of archives

/// The zoom-6 tile an archive named `name` covers: the second and third
/// dash-separated fields of the part before the first dot.
pub open spec fn tile_of_name(name: Seq<char>) -> Option<(u32, u32)> {
    let fields = split_char(split_char(name, '.')[0], '-');
    if fields.len() >= 3 {
        match (parse_u32(fields[1]), parse_u32(fields[2])) {
            (Some(x), Some(y)) => Some((x, y)),
            _ => None,
        }
    } else {
        None
    }
}

/// The tile an archive covers, read from its name.
pub fn parse_tile_name(name: &str) -> (r: Option<(u32, u32)>)
    ensures
        r == tile_of_name(name@),
{
    let base = first_field(name, '.');
    let fields = split_fields(base.as_str(), '-');
    if fields.len() < 3 {
        return None;
    }
    let x = parse_u32_str(fields[1].as_str());
    let y = parse_u32_str(fields[2].as_str());
    assert(fields@.map_values(|f: String| f@)[1] == fields@[1]@);
    assert(fields@.map_values(|f: String| f@)[2] == fields@[2]@);
    match (x, y) {
        (Some(x), Some(y)) => Some((x, y)),
        _ => None,
    }
}

/// A key that tells tiles apart by zoom and position.
pub open spec fn tile_key(z: u8, x: u32, y: u32) -> u128 {
    (z as u128 * 0x1_0000_0000_0000_0000 + x as u128 * 0x1_0000_0000 + y as u128) as u128
}

pub fn make_tile_key(z: u8, x: u32, y: u32) -> (k: u128)
    ensures
        k == tile_key(z, x, y),
{
    z as u128 * 0x1_0000_0000_0000_0000 + x as u128 * 0x1_0000_0000 + y as u128
}

/// Different tiles have different keys.
pub proof fn lemma_tile_key_injective(z1: u8, x1: u32, y1: u32, z2: u8, x2: u32, y2: u32)
    requires
        tile_key(z1, x1, y1) == tile_key(z2, x2, y2),
    ensures
        z1 == z2 && x1 == x2 && y1 == y2,
{
    assert(z1 == z2 && x1 == x2 && y1 == y2) by (nonlinear_arith)
        requires
            z1 as int * 0x1_0000_0000_0000_0000 + x1 as int * 0x1_0000_0000 + y1 as int
                == z2 as int * 0x1_0000_0000_0000_0000 + x2 as int * 0x1_0000_0000 + y2 as int,
            0 <= x1 < 0x1_0000_0000,
            0 <= x2 < 0x1_0000_0000,
            0 <= y1 < 0x1_0000_0000,
            0 <= y2 < 0x1_0000_0000,
            0 <= z1 < 256,
            0 <= z2 < 256,
    ;
}

/// An elevation archive: its highest zoom and its storage key.
pub struct PMTilesInfo {
    pub z_max: u8,
    pub key: String,
}

/// An entry of the list of downloadable archives.
pub struct TileArchive {
    pub name: String,
    pub max_zoom: u8,
}

/// Whether `name` starts with `planet`.
pub open spec fn is_planet(name: Seq<char>) -> bool {
    name.len() >= 6 && name.take(6) == "planet"@
}

pub fn starts_with_planet(name: &str) -> (b: bool)
    ensures
        b == is_planet(name@),
{
    let n = name.unicode_len();
    if n < 6 {
        return false;
    }
    let head = name.substring_char(0, 6);
    proof {
        reveal_strlit("planet");
    }
    crate::strmap::str_eq(head, "planet")
}

/// The archives of `items` by the key of their zoom-6 tile, `None` when a
/// name cannot be read; the planet archive is left out, and a later archive
/// for the same tile replaces an earlier one.
pub open spec fn tiles_map_of(items: Seq<TileArchive>, path: Seq<char>) -> Option<Map<u128, (u8, Seq<char>)>>
    decreases items.len(),
{
    if items.len() == 0 {
        Some(Map::empty())
    } else {
        match tiles_map_of(items.drop_last(), path) {
            None => None,
            Some(m) => {
                let it = items.last();
                if is_planet(it.name@) {
                    Some(m)
                } else {
                    match tile_of_name(it.name@) {
                        None => None,
                        Some((x, y)) => Some(m.insert(tile_key(6, x, y), (it.max_zoom, path + it.name@))),
                    }
                }
            },
        }
    }
}

/// The plain values of a map of archives.
pub open spec fn tiles_view(m: Map<u128, PMTilesInfo>) -> Map<u128, (u8, Seq<char>)> {
    Map::new(|k: u128| m.contains_key(k), |k: u128| (m[k].z_max, m[k].key@))
}

/// Builds the map of archives from the list of downloadable archives;
/// `None` when an archive's name does not end in a tile position.
pub fn extract_tiles_map(items: &Vec<TileArchive>, path: &str) -> (r: Option<HashMap<u128, PMTilesInfo>>)
    ensures
        match tiles_map_of(items@, path@) {
            None => r is None,
            Some(m) => r matches Some(h) && tiles_view(h@) == m,
        },
{
    let mut map: HashMap<u128, PMTilesInfo> = HashMap::new();
    let n = items.len();
    let mut i: usize = 0;
    assert(tiles_view(map@) =~= Map::<u128, (u8, Seq<char>)>::empty());
    while i < n
        invariant
            n == items@.len(),
            i <= n,
            tiles_map_of(items@.take(i as int), path@) == Some(tiles_view(map@)),
        decreases n - i,
    {
        proof {
            assert(items@.take(i + 1).drop_last() =~= items@.take(i as int));
            assert(items@.take(i + 1).last() == items@[i as int]);
        }
        let item = &items[i];
        if !starts_with_planet(item.name.as_str()) {
            match parse_tile_name(item.name.as_str()) {
                None => {
                    proof {
                        lemma_tiles_map_none_stays(items@, path@, i as int + 1);
                    }
                    return None;
                },
                Some((x, y)) => {
                    let mut key = path.to_owned();
                    key.append(item.name.as_str());
                    let ghost before = map@;
                    map.insert(make_tile_key(6, x, y), PMTilesInfo { z_max: item.max_zoom, key });
                    assert(tiles_view(map@) =~= tiles_view(before).insert(tile_key(6, x, y), (item.max_zoom, path@ + item.name@)));
                },
            }
        }
        i = i + 1;
    }
    assert(items@.take(n as int) =~= items@);
    Some(map)
}

/// Once a name cannot be read, the map stays undefined.
pub proof fn lemma_tiles_map_none_stays(items: Seq<TileArchive>, path: Seq<char>, k: int)
    requires
        0 <= k <= items.len(),
        tiles_map_of(items.take(k), path) is None,
    ensures
        tiles_map_of(items, path) is None,
    decreases items.len() - k,
{
    if k < items.len() {
        assert(items.take(k + 1).drop_last() =~= items.take(k));
        lemma_tiles_map_none_stays(items, path, k + 1);
    } else {
        assert(items.take(k) =~= items);
    }
}

// ---------------------------------------------------------------------------
// Lookups

/// The zooms to try for a node, highest first: from `zoom` down to 13.
pub open spec fn lookup_zooms_of(zoom: u8) -> Seq<u8> {
    if zoom < 13 {
        Seq::empty()
    } else {
        Seq::new((zoom - 12) as nat, |i: int| (zoom - i) as u8)
    }
}

/// The zooms to try for a node, highest first.
pub fn lookup_zooms(zoom: u8) -> (v: Vec<u8>)
    ensures
        v@ == lookup_zooms_of(zoom),
{
    let mut v: Vec<u8> = Vec::new();
    let mut z = zoom;
    while z >= MIN_LOOKUP_ZOOM
        invariant
            z <= zoom,
            zoom >= 13 ==> z >= 12,
            zoom >= 13 ==> v@ == Seq::new((zoom - z) as nat, |i: int| (zoom - i) as u8),
            zoom < 13 ==> v@.len() == 0,
            zoom < 13 ==> z == zoom,
        decreases z,
    {
        v.push(z);
        assert(v@ =~= Seq::new((zoom - z + 1) as nat, |i: int| (zoom - i) as u8));
        z = z - 1;
    }
    assert(v@ =~= lookup_zooms_of(zoom));
    v
}

/// The key of a candidate tile.
pub open spec fn candidate_key(c: (u8, u32, u32)) -> u128 {
    tile_key(c.0, c.1, c.2)
}

/// Looking a node up from candidate `i` on, with the tiles of `failed` known
/// to be missing and `avail` the tiles that exist: candidates known to be
/// missing are skipped, the first other one is fetched; a tile that exists
/// ends the lookup as found, a missing one is remembered and the lookup goes
/// on. Gives whether a tile was found and the missing tiles known at the end.
pub open spec fn lookup_from(cands: Seq<(u8, u32, u32)>, i: int, failed: Set<u128>, avail: Set<u128>) -> (bool, Set<u128>)
    decreases cands.len() - i,
{
    if i < 0 || i >= cands.len() {
        (false, failed)
    } else {
        let k = candidate_key(cands[i]);
        if failed.contains(k) {
            lookup_from(cands, i + 1, failed, avail)
        } else if avail.contains(k) {
            (true, failed)
        } else {
            lookup_from(cands, i + 1, failed.insert(k), avail)
        }
    }
}

/// Candidates known to be missing do not change the outcome: the lookup from
/// `i` is the lookup from `j` when every candidate in between is known missing.
pub proof fn lemma_lookup_skips(cands: Seq<(u8, u32, u32)>, i: int, j: int, failed: Set<u128>, avail: Set<u128>)
    requires
        0 <= i <= j,
        forall|k: int| i <= k < j && k < cands.len() ==> failed.contains(#[trigger] candidate_key(cands[k])),
    ensures
        lookup_from(cands, i, failed, avail) == lookup_from(cands, j, failed, avail),
    decreases j - i,
{
    if i < j && i < cands.len() {
        lemma_lookup_skips(cands, i + 1, j, failed, avail);
    } else if i < j {
        assert(lookup_from(cands, i, failed, avail) == (false, failed));
        assert(lookup_from(cands, j, failed, avail) == (false, failed));
    }
}

/// The candidate tiles from index `i` on.
pub open spec fn keys_from(cands: Seq<(u8, u32, u32)>, i: int) -> Set<u128> {
    Set::new(|k: u128| exists|j: int| i <= j < cands.len() && k == #[trigger] candidate_key(cands[j]))
}

/// What a node's lookup gives: a tile is found exactly when some candidate's
/// tile exists and was not known to be missing. Only candidate tiles that do
/// not exist become known missing; when nothing is found, every candidate's
/// tile is known missing at the end.
pub proof fn lemma_lookup_outcome(cands: Seq<(u8, u32, u32)>, i: int, failed: Set<u128>, avail: Set<u128>)
    requires
        0 <= i,
    ensures
        lookup_from(cands, i, failed, avail).0 <==> exists|j: int| i <= j < cands.len()
            && avail.contains(#[trigger] candidate_key(cands[j])) && !failed.contains(candidate_key(cands[j])),
        failed.subset_of(lookup_from(cands, i, failed, avail).1),
        forall|k: u128| #[trigger] lookup_from(cands, i, failed, avail).1.contains(k) && !failed.contains(k)
            ==> !avail.contains(k) && keys_from(cands, i).contains(k),
        !lookup_from(cands, i, failed, avail).0 ==> lookup_from(cands, i, failed, avail).1
            == failed.union(keys_from(cands, i)),
    decreases cands.len() - i,
{
    let rest = keys_from(cands, i);
    if i >= cands.len() {
        assert(rest =~= Set::<u128>::empty());
        assert(failed.union(rest) =~= failed);
    } else {
        let k = candidate_key(cands[i]);
        let rest1 = keys_from(cands, i + 1);
        assert(rest =~= rest1.insert(k)) by {
            assert forall|x: u128| rest.contains(x) <==> rest1.insert(k).contains(x) by {
                if rest.contains(x) {
                    let j = choose|j: int| i <= j < cands.len() && x == #[trigger] candidate_key(cands[j]);
                    if j > i {
                        assert(rest1.contains(x));
                    }
                }
                if rest1.contains(x) {
                    let j = choose|j: int| i + 1 <= j < cands.len() && x == #[trigger] candidate_key(cands[j]);
                    assert(i <= j);
                }
            }
        }
        if failed.contains(k) {
            lemma_lookup_outcome(cands, i + 1, failed, avail);
            assert(failed.union(rest) =~= failed.union(rest1));
            if exists|j: int| i <= j < cands.len() && avail.contains(#[trigger] candidate_key(cands[j])) && !failed.contains(candidate_key(cands[j])) {
                let j = choose|j: int| i <= j < cands.len() && avail.contains(#[trigger] candidate_key(cands[j])) && !failed.contains(candidate_key(cands[j]));
                assert(j != i);
            }
        } else if avail.contains(k) {
            assert(avail.contains(candidate_key(cands[i])));
        } else {
            let f1 = failed.insert(k);
            lemma_lookup_outcome(cands, i + 1, f1, avail);
            assert(f1.union(rest1) =~= failed.union(rest));
            if exists|j: int| i <= j < cands.len() && avail.contains(#[trigger] candidate_key(cands[j])) && !failed.contains(candidate_key(cands[j])) {
                let j = choose|j: int| i <= j < cands.len() && avail.contains(#[trigger] candidate_key(cands[j])) && !failed.contains(candidate_key(cands[j]));
                assert(j != i);
                assert(!f1.contains(candidate_key(cands[j])));
            }
            if exists|j: int| i + 1 <= j < cands.len() && avail.contains(#[trigger] candidate_key(cands[j])) && !f1.contains(candidate_key(cands[j])) {
                let j = choose|j: int| i + 1 <= j < cands.len() && avail.contains(#[trigger] candidate_key(cands[j])) && !f1.contains(candidate_key(cands[j]));
                assert(!failed.contains(candidate_key(cands[j])));
            }
            let r = lookup_from(cands, i + 1, f1, avail).1;
            assert forall|x: u128| #[trigger] r.contains(x) && !failed.contains(x) implies !avail.contains(x) && rest.contains(x) by {
                if x != k {
                    assert(!f1.contains(x));
                }
            }
        }
    }
}

/// The next step of looking a node up.
pub enum LookupStep {
    /// Fetch the tile of the candidate at this index.
    Fetch(usize),
    /// A tile was found; the node is counted as found.
    Found,
    /// No candidate is left; the node is counted as not found.
    NotFound,
}

/// The state of the elevation lookups: the nodes buffered per zoom-6 tile,
/// the archives, the tiles found to be missing, and the counts of the lookups.
pub struct PMTilesLookups {
    pub buffers: BufferPool<Node>,
    pub total_threshold: usize,
    pub tiles_map: HashMap<u128, PMTilesInfo>,
    pub failed_tile_lookups: HashSet<u128>,
    pub ele_lookups_successful: u64,
    pub ele_lookups_failed: u64,
    pub ele_lookups_skipped: u64,
}

impl PMTilesLookups {
    /// Lookups in the archives of `tiles_map`; a tile's buffer is enriched
    /// when it holds `buffer_threshold` nodes, and the largest buffer when all
    /// buffers hold `total_threshold` nodes.
    pub fn new(tiles_map: HashMap<u128, PMTilesInfo>, buffer_threshold: usize, total_threshold: usize) -> (l: Self)
        ensures
            l.buffers.wf(),
            l.buffers.view() == Seq::<(u128, Seq<Node>)>::empty(),
            l.buffers.spec_batch_size() == buffer_threshold,
            l.total_threshold == total_threshold,
            l.tiles_map@ == tiles_map@,
            l.failed_tile_lookups@ == Set::<u128>::empty(),
            l.ele_lookups_successful == 0,
            l.ele_lookups_failed == 0,
            l.ele_lookups_skipped == 0,
    {
        PMTilesLookups {
            buffers: BufferPool::new(buffer_threshold),
            total_threshold,
            tiles_map,
            failed_tile_lookups: HashSet::new(),
            ele_lookups_successful: 0,
            ele_lookups_failed: 0,
            ele_lookups_skipped: 0,
        }
    }

    /// Buffers `node` for the zoom-6 tile `(x, y)` it lies in and hands out
    /// the buffers that are due for enrichment: the tile's buffer when it
    /// reached the buffer threshold, then a largest buffer when all buffers
    /// together reached the total threshold.
    pub fn buffer_node(&mut self, node: Node, x: u32, y: u32) -> (due: Vec<Batch<Node>>)
        requires
            old(self).buffers.wf(),
            x < 64,
            y < 64,
            old(self).total_threshold > 0
                || add_keeps_some(old(self).buffers.view(), tile_key(6, x, y), node, old(self).buffers.spec_batch_size()),
        ensures
            final(self).buffers.wf(),
            final(self).buffers.spec_batch_size() == old(self).buffers.spec_batch_size(),
            final(self).total_threshold == old(self).total_threshold,
            final(self).tiles_map == old(self).tiles_map,
            final(self).failed_tile_lookups == old(self).failed_tile_lookups,
            exists|full: Option<(u128, Seq<Node>)>, largest: Option<(u128, Seq<Node>)>| {
                &&& add_limited_result(old(self).buffers.view(), tile_key(6, x, y), node,
                    old(self).buffers.spec_batch_size(), old(self).total_threshold, final(self).buffers.view(), full, largest)
                &&& batches_view(due@) == (match full { Some(b) => seq![b], None => Seq::empty() })
                    + (match largest { Some(b) => seq![b], None => Seq::empty() })
            },
    {
        let (full, largest) = self.buffers.add_limited(make_tile_key(ARCHIVE_ZOOM, x, y), node, self.total_threshold);
        let ghost fv = batch_view(full);
        let ghost lv = batch_view(largest);
        let mut due: Vec<Batch<Node>> = Vec::new();
        match full {
            Some(b) => due.push(b),
            None => {},
        }
        match largest {
            Some(b) => due.push(b),
            None => {},
        }
        assert(batches_view(due@) =~= (match fv { Some(b) => seq![b], None => Seq::empty() })
            + (match lv { Some(b) => seq![b], None => Seq::empty() }));
        due
    }

    /// Hands out every buffered node, buffer by buffer, and empties the buffers.
    pub fn flush_buffers(&mut self) -> (due: Vec<Batch<Node>>)
        requires
            old(self).buffers.wf(),
        ensures
            final(self).buffers.wf(),
            final(self).buffers.view() == Seq::<(u128, Seq<Node>)>::empty(),
            batches_view(due@) == old(self).buffers.view(),
            final(self).buffers.spec_batch_size() == old(self).buffers.spec_batch_size(),
            final(self).total_threshold == old(self).total_threshold,
            final(self).tiles_map == old(self).tiles_map,
            final(self).failed_tile_lookups == old(self).failed_tile_lookups,
    {
        self.buffers.drain_all()
    }

    /// The highest zoom to look up a node in the zoom-6 tile `(x, y)` at: the
    /// archive's highest zoom, or 12 for the planet archive.
    pub fn zoom_for_tile(&self, x: u32, y: u32) -> (z: u8)
        ensures
            z == if self.tiles_map@.contains_key(tile_key(6, x, y)) {
                self.tiles_map@[tile_key(6, x, y)].z_max
            } else {
                12u8
            },
    {
        match self.tiles_map.get(&make_tile_key(ARCHIVE_ZOOM, x, y)) {
            Some(info) => info.z_max,
            None => PLANET_ZOOM,
        }
    }

    /// Whether tile `(z, x, y)` is worth fetching: it is not known to be missing.
    pub fn should_fetch(&self, z: u8, x: u32, y: u32) -> (b: bool)
        ensures
            b == !self.failed_tile_lookups@.contains(tile_key(z, x, y)),
    {
        !self.failed_tile_lookups.contains(&make_tile_key(z, x, y))
    }

    /// Remembers that tile `(z, x, y)` is missing.
    pub fn record_missing_tile(&mut self, z: u8, x: u32, y: u32)
        ensures
            final(self).failed_tile_lookups@ == old(self).failed_tile_lookups@.insert(tile_key(z, x, y)),
            final(self).tiles_map@ == old(self).tiles_map@,
            final(self).buffers == old(self).buffers,
            final(self).total_threshold == old(self).total_threshold,
            final(self).ele_lookups_successful == old(self).ele_lookups_successful,
            final(self).ele_lookups_failed == old(self).ele_lookups_failed,
            final(self).ele_lookups_skipped == old(self).ele_lookups_skipped,
    {
        self.failed_tile_lookups.insert(make_tile_key(z, x, y));
    }

    /// The first candidate at or after `from` whose tile is not known to be
    /// missing: the next tile to fetch when looking a node up, given the
    /// node's tile at each zoom to try, highest zoom first.
    pub fn next_fetchable(&self, candidates: &Vec<(u8, u32, u32)>, from: usize) -> (r: Option<usize>)
        ensures
            match r {
                Some(i) => {
                    &&& from <= i < candidates@.len()
                    &&& !self.failed_tile_lookups@.contains(
                        tile_key(candidates@[i as int].0, candidates@[i as int].1, candidates@[i as int].2))
                    &&& forall|j: int| from <= j < i ==> self.failed_tile_lookups@.contains(
                        tile_key(#[trigger] candidates@[j].0, candidates@[j].1, candidates@[j].2))
                },
                None => forall|j: int| from <= j < candidates@.len() ==> self.failed_tile_lookups@.contains(
                    tile_key(#[trigger] candidates@[j].0, candidates@[j].1, candidates@[j].2)),
            },
    {
        let n = candidates.len();
        let mut i = from;
        while i < n
            invariant
                n == candidates@.len(),
                from <= i,
                forall|j: int| from <= j < i ==> self.failed_tile_lookups@.contains(
                    tile_key(#[trigger] candidates@[j].0, candidates@[j].1, candidates@[j].2)),
            decreases n - i,
        {
            let (z, x, y) = candidates[i];
            if self.should_fetch(z, x, y) {
                return Some(i);
            }
            i = i + 1;
        }
        None
    }

    /// Records the outcome of fetching tile `(z, x, y)` for a node: a found
    /// tile counts the node as found; a missing tile is remembered.
    pub fn record_fetch(&mut self, z: u8, x: u32, y: u32, found: bool)
        ensures
            final(self).tiles_map@ == old(self).tiles_map@,
            final(self).buffers == old(self).buffers,
            final(self).total_threshold == old(self).total_threshold,
            final(self).ele_lookups_failed == old(self).ele_lookups_failed,
            final(self).ele_lookups_skipped == old(self).ele_lookups_skipped,
            found ==> final(self).failed_tile_lookups@ == old(self).failed_tile_lookups@
                && final(self).ele_lookups_successful == old(self).ele_lookups_successful.wrapping_add(1),
            !found ==> final(self).failed_tile_lookups@ == old(self).failed_tile_lookups@.insert(tile_key(z, x, y))
                && final(self).ele_lookups_successful == old(self).ele_lookups_successful,
    {
        if found {
            self.record_found();
        } else {
            self.record_missing_tile(z, x, y);
        }
    }

    /// Starts looking a node up: the first candidate to fetch, or, when every
    /// candidate is known to be missing, the end, counted as not found.
    pub fn lookup_start(&mut self, candidates: &Vec<(u8, u32, u32)>) -> (r: LookupStep)
        ensures
            final(self).tiles_map@ == old(self).tiles_map@,
            final(self).buffers == old(self).buffers,
            final(self).total_threshold == old(self).total_threshold,
            final(self).failed_tile_lookups@ == old(self).failed_tile_lookups@,
            final(self).ele_lookups_successful == old(self).ele_lookups_successful,
            final(self).ele_lookups_skipped == old(self).ele_lookups_skipped,
            match r {
                LookupStep::Fetch(j) => {
                    &&& j < candidates@.len()
                    &&& !old(self).failed_tile_lookups@.contains(candidate_key(candidates@[j as int]))
                    &&& final(self).ele_lookups_failed == old(self).ele_lookups_failed
                    &&& forall|avail: Set<u128>| lookup_from(candidates@, 0, old(self).failed_tile_lookups@, avail)
                        == #[trigger] lookup_from(candidates@, j as int, old(self).failed_tile_lookups@, avail)
                },
                LookupStep::Found => false,
                LookupStep::NotFound => {
                    &&& final(self).ele_lookups_failed == old(self).ele_lookups_failed.wrapping_add(1)
                    &&& forall|avail: Set<u128>| #[trigger] lookup_from(candidates@, 0, old(self).failed_tile_lookups@, avail)
                        == (false, old(self).failed_tile_lookups@)
                },
            },
    {
        match self.next_fetchable(candidates, 0) {
            Some(j) => {
                proof {
                    assert forall|avail: Set<u128>| lookup_from(candidates@, 0, self.failed_tile_lookups@, avail)
                        == #[trigger] lookup_from(candidates@, j as int, self.failed_tile_lookups@, avail) by {
                        lemma_lookup_skips(candidates@, 0, j as int, self.failed_tile_lookups@, avail);
                    }
                }
                LookupStep::Fetch(j)
            },
            None => {
                let ghost f = self.failed_tile_lookups@;
                proof {
                    assert forall|avail: Set<u128>| #[trigger] lookup_from(candidates@, 0, f, avail) == (false, f) by {
                        lemma_lookup_skips(candidates@, 0, candidates@.len() as int, f, avail);
                    }
                }
                self.record_not_found();
                LookupStep::NotFound
            },
        }
    }

    /// Takes the outcome of fetching the tile of candidate `at` for `node`:
    /// the elevation read from the tile, or `None` when the tile is missing,
    /// and decides the next step. A found tile ends the lookup: the elevation
    /// is added to `node` as tag `ele` and the node is counted as found. A
    /// missing tile is remembered and the next candidate not known to be
    /// missing is fetched, or, when none is left, the lookup ends, counted as
    /// not found. Whatever tiles exist, the lookup goes on as `lookup_from` says.
    pub fn lookup_step(&mut self, candidates: &Vec<(u8, u32, u32)>, at: usize, elevation: Option<String>,
        node: &mut Node) -> (r: LookupStep)
        requires
            at < candidates@.len(),
        ensures
            final(self).tiles_map@ == old(self).tiles_map@,
            final(self).buffers == old(self).buffers,
            final(self).total_threshold == old(self).total_threshold,
            with_elevation(*old(node), match elevation { Some(v) => Some(v@), None => None }, *final(node)),
            final(self).ele_lookups_skipped == old(self).ele_lookups_skipped,
            elevation is Some ==> r is Found && final(self).failed_tile_lookups@ == old(self).failed_tile_lookups@
                && final(self).ele_lookups_successful == old(self).ele_lookups_successful.wrapping_add(1)
                && final(self).ele_lookups_failed == old(self).ele_lookups_failed,
            elevation is None ==> final(self).failed_tile_lookups@ == old(self).failed_tile_lookups@.insert(
                candidate_key(candidates@[at as int])) && final(self).ele_lookups_successful == old(self).ele_lookups_successful,
            match r {
                LookupStep::Fetch(j) => {
                    &&& at < j < candidates@.len()
                    &&& !final(self).failed_tile_lookups@.contains(candidate_key(candidates@[j as int]))
                    &&& final(self).ele_lookups_failed == old(self).ele_lookups_failed
                },
                LookupStep::Found => elevation is Some,
                LookupStep::NotFound => final(self).ele_lookups_failed == old(self).ele_lookups_failed.wrapping_add(1),
            },
            forall|avail: Set<u128>| avail.contains(candidate_key(candidates@[at as int])) == (elevation is Some)
                && !old(self).failed_tile_lookups@.contains(candidate_key(candidates@[at as int])) ==> {
                &&& #[trigger] lookup_from(candidates@, at as int, old(self).failed_tile_lookups@, avail) == match r {
                    LookupStep::Fetch(j) => lookup_from(candidates@, j as int, final(self).failed_tile_lookups@, avail),
                    LookupStep::Found => (true, final(self).failed_tile_lookups@),
                    LookupStep::NotFound => (false, final(self).failed_tile_lookups@),
                }
            },
    {
        let (z, x, y) = candidates[at];
        let found = elevation.is_some();
        let ghost f0 = self.failed_tile_lookups@;
        self.record_fetch(z, x, y, found);
        if let Some(v) = elevation {
            node.tags.push(Tag { k: "ele".to_owned(), v });
            assert(node.tags@.drop_last() =~= old(node).tags@);
            return LookupStep::Found;
        }
        let ghost f1 = self.failed_tile_lookups@;
        assert(at < candidates.len());
        match self.next_fetchable(candidates, at + 1) {
            Some(j) => {
                proof {
                    assert forall|avail: Set<u128>| avail.contains(candidate_key(candidates@[at as int])) == (elevation is Some)
                        && !f0.contains(candidate_key(candidates@[at as int])) implies
                        #[trigger] lookup_from(candidates@, at as int, f0, avail)
                            == lookup_from(candidates@, j as int, f1, avail) by {
                        lemma_lookup_skips(candidates@, at + 1, j as int, f1, avail);
                    }
                }
                LookupStep::Fetch(j)
            },
            None => {
                proof {
                    assert forall|avail: Set<u128>| avail.contains(candidate_key(candidates@[at as int])) == (elevation is Some)
                        && !f0.contains(candidate_key(candidates@[at as int])) implies
                        #[trigger] lookup_from(candidates@, at as int, f0, avail) == (false, f1) by {
                        lemma_lookup_skips(candidates@, at + 1, candidates@.len() as int, f1, avail);
                    }
                }
                self.record_not_found();
                LookupStep::NotFound
            },
        }
    }

    /// Counts a node whose elevation was found.
    pub fn record_found(&mut self)
        ensures
            *final(self) == (PMTilesLookups {
                ele_lookups_successful: old(self).ele_lookups_successful.wrapping_add(1),
                ..*old(self)
            }),
    {
        self.ele_lookups_successful = self.ele_lookups_successful.wrapping_add(1);
    }

    /// Counts a node whose elevation was not found at any zoom.
    pub fn record_not_found(&mut self)
        ensures
            *final(self) == (PMTilesLookups {
                ele_lookups_failed: old(self).ele_lookups_failed.wrapping_add(1),
                ..*old(self)
            }),
    {
        self.ele_lookups_failed = self.ele_lookups_failed.wrapping_add(1);
    }

    /// Records the counts in the statistics.
    pub fn close(&self, data: &mut HandlerData)
        ensures
            *final(data) == (HandlerData {
                elevation_found_node_count: self.ele_lookups_successful,
                elevation_not_found_node_count: self.ele_lookups_failed,
                elevation_not_relevant_node_count: self.ele_lookups_skipped,
                ..*old(data)
            }),
    {
        data.elevation_found_node_count = self.ele_lookups_successful;
        data.elevation_not_found_node_count = self.ele_lookups_failed;
        data.elevation_not_relevant_node_count = self.ele_lookups_skipped;
    }
}

} // verus!
