//! Bit sets over element ids, held in `bit_vec::BitVec`.

use vstd::prelude::*;
use bit_vec::BitVec;

verus! {

#[verifier::external_type_specification]
#[verifier::external_body]
#[verifier::reject_recursive_types(B)]
pub struct ExBitVec<B>(bit_vec::BitVec<B>);

/// The bits a `BitVec` holds, in index order.
pub uninterp spec fn bit_contents(b: BitVec) -> Seq<bool>;

/// `BitVec::from_elem`: a bit vector of `len` bits, each equal to `bit`.
#[verifier::external_body]
pub(crate) fn bits_from_elem(len: usize, bit: bool) -> (b: BitVec)
    ensures
        bit_contents(b) == Seq::new(len as nat, |_i: int| bit),
{
    BitVec::from_elem(len, bit)
}

/// `BitVec::len`: the number of bits.
#[verifier::external_body]
pub(crate) fn bits_len(b: &BitVec) -> (n: usize)
    ensures
        n == bit_contents(*b).len(),
{
    b.len()
}

/// `BitVec::get`: the bit at `i`, or `None` when `i` is out of bounds.
#[verifier::external_body]
pub(crate) fn bits_get(b: &BitVec, i: usize) -> (r: Option<bool>)
    ensures
        i < bit_contents(*b).len() ==> r == Some(bit_contents(*b)[i as int]),
        i >= bit_contents(*b).len() ==> r is None,
{
    b.get(i)
}

/// `BitVec::set`: sets the bit at `i` (which panics out of bounds).
#[verifier::external_body]
pub(crate) fn bits_set(b: &mut BitVec, i: usize, x: bool)
    requires
        i < bit_contents(*old(b)).len(),
    ensures
        bit_contents(*final(b)) == bit_contents(*old(b)).update(i as int, x),
{
    b.set(i, x)
}

/// Whether the bit for the non-negative id `id` is set; false for ids outside the set.
pub open spec fn bit_is_set(bits: Seq<bool>, id: int) -> bool {
    0 <= id < bits.len() && bits[id]
}

/// Reads the bit for an id; ids that are negative or beyond the end read as `None`.
pub fn bit_for_id(b: &BitVec, id: i64) -> (r: Option<bool>)
    ensures
        0 <= id < bit_contents(*b).len() ==> r == Some(bit_contents(*b)[id as int]),
        !(0 <= id < bit_contents(*b).len()) ==> r is None,
{
    let n = bits_len(b);
    if id < 0 {
        None
    } else if id as u64 >= n as u64 {
        None
    } else {
        bits_get(b, id as usize)
    }
}

/// Sets the bit for an id that lies inside the set.
pub fn set_bit_for_id(b: &mut BitVec, id: i64)
    requires
        0 <= id < bit_contents(*old(b)).len(),
    ensures
        bit_contents(*final(b)) == bit_contents(*old(b)).update(id as int, true),
{
    let n = bits_len(b);
    assert(id < n);
    bits_set(b, id as usize, true)
}

/// `bits` with the bits at the positions in `ids` set.
pub open spec fn with_bits_set(bits: Seq<bool>, ids: Set<int>) -> Seq<bool> {
    Seq::new(bits.len(), |k: int| bits[k] || ids.contains(k))
}

/// The ids of `ids`, as integers.
pub open spec fn id_set(ids: Seq<i64>) -> Set<int> {
    Set::new(|k: int| exists|i: int| 0 <= i < ids.len() && #[trigger] ids[i] as int == k)
}

/// Every id of `ids` is a position of a bit set of length `len`.
pub open spec fn ids_in_range(ids: Seq<i64>, len: nat) -> bool {
    forall|i: int| 0 <= i < ids.len() ==> 0 <= #[trigger] ids[i] < len
}

/// Setting the bits of `a` and then those of `b` sets those of their union.
pub proof fn lemma_with_bits_set_union(bits: Seq<bool>, a: Set<int>, b: Set<int>)
    ensures
        with_bits_set(with_bits_set(bits, a), b) == with_bits_set(bits, a.union(b)),
{
    assert(with_bits_set(with_bits_set(bits, a), b) =~= with_bits_set(bits, a.union(b)));
}

/// Whether every id of `ids` lies in `0..len`.
pub fn ids_fit(ids: &Vec<i64>, len: usize) -> (b: bool)
    ensures
        b == ids_in_range(ids@, len as nat),
{
    let n = ids.len();
    let mut i: usize = 0;
    while i < n
        invariant
            n == ids@.len(),
            i <= n,
            forall|j: int| 0 <= j < i ==> 0 <= #[trigger] ids@[j] < len,
        decreases n - i,
    {
        if ids[i] < 0 || ids[i] as u64 >= len as u64 {
            return false;
        }
        i = i + 1;
    }
    true
}

/// Sets the bit of every id of `ids`; the ids must lie inside the set.
pub fn set_bits_for_ids(b: &mut BitVec, ids: &Vec<i64>)
    requires
        ids_in_range(ids@, bit_contents(*old(b)).len()),
    ensures
        bit_contents(*final(b)) == with_bits_set(bit_contents(*old(b)), id_set(ids@)),
{
    let n = ids.len();
    let mut i: usize = 0;
    assert(with_bits_set(bit_contents(*b), id_set(ids@.take(0))) =~= bit_contents(*b));
    while i < n
        invariant
            n == ids@.len(),
            i <= n,
            ids_in_range(ids@, bit_contents(*old(b)).len()),
            bit_contents(*b) == with_bits_set(bit_contents(*old(b)), id_set(ids@.take(i as int))),
        decreases n - i,
    {
        let id = ids[i];
        let ghost prev = bit_contents(*b);
        set_bit_for_id(b, id);
        proof {
            let before = with_bits_set(bit_contents(*old(b)), id_set(ids@.take(i as int)));
            let after = with_bits_set(bit_contents(*old(b)), id_set(ids@.take(i + 1)));
            assert forall|k: int| id_set(ids@.take(i + 1)).contains(k) <==> (id_set(ids@.take(i as int)).contains(k) || k == id as int) by {
                if k == id as int {
                    assert(ids@.take(i + 1)[i as int] == id);
                }
                if id_set(ids@.take(i + 1)).contains(k) {
                    let j = choose|j: int| 0 <= j < ids@.take(i + 1).len() && #[trigger] ids@.take(i + 1)[j] as int == k;
                    if j < i {
                        assert(ids@.take(i as int)[j] == ids@.take(i + 1)[j]);
                    }
                }
                if id_set(ids@.take(i as int)).contains(k) {
                    let j = choose|j: int| 0 <= j < ids@.take(i as int).len() && #[trigger] ids@.take(i as int)[j] as int == k;
                    assert(ids@.take(i + 1)[j] == ids@.take(i as int)[j]);
                }
            }
            assert forall|k: int| 0 <= k < after.len() implies #[trigger] bit_contents(*b)[k] == after[k] by {
                assert(prev[k] == before[k]);
            }
            assert(bit_contents(*b) =~= after);
        }
        i = i + 1;
    }
    assert(ids@.take(n as int) =~= ids@);
}

} // verus!
