//! The order in which a shuffled queue presents its songs: a random
//! permutation of the positions that keeps one chosen position in place.

use rand::seq::SliceRandom;
use rand::thread_rng;
use vstd::prelude::*;

verus! {

/// Calls `rand::seq::SliceRandom::shuffle` with the generator of
/// `rand::thread_rng`. The call swaps elements of the slice among themselves:
/// afterwards the vector holds the same values, each as often as before, in
/// an order that nothing is claimed of.
#[verifier::external_body]
fn shuffle_positions(positions: &mut Vec<u32>)
    ensures
        final(positions)@.to_multiset() == old(positions)@.to_multiset(),
{
    positions.shuffle(&mut thread_rng());
}

/// `p` lists each of the first `p.len()` positions exactly once.
pub open spec fn is_permutation(p: Seq<u32>) -> bool {
    &&& forall|i: int| 0 <= i < p.len() ==> (#[trigger] p[i]) < p.len()
    &&& forall|i: int, j: int| 0 <= i < j < p.len() ==> p[i] != p[j]
    &&& forall|v: u32| v < p.len() ==> p.contains(v)
}

/// `p` is an order of `n` positions that a shuffle anchored at `anchor` may
/// produce: a permutation that leaves the anchor where it is and, where the
/// anchor lies strictly inside, leaves everything before it in natural order
/// as well.
pub open spec fn is_anchored_shuffle(p: Seq<u32>, n: nat, anchor: nat) -> bool {
    &&& p.len() == n
    &&& is_permutation(p)
    &&& anchor < n ==> p[anchor as int] == anchor
    &&& 0 < anchor && anchor + 1 < n ==> forall|i: int| 0 <= i < anchor ==> p[i] == i
}

/// The positions from `lo` up to `hi`, in natural order.
pub open spec fn natural_order(lo: int, hi: int) -> Seq<u32> {
    Seq::new(
        if hi >= lo {
            (hi - lo) as nat
        } else {
            0
        },
        |i: int| (lo + i) as u32,
    )
}

fn positions_between(lo: u32, hi: u32) -> (res: Vec<u32>)
    requires
        lo <= hi,
    ensures
        res@ == natural_order(lo as int, hi as int),
{
    let mut res: Vec<u32> = Vec::new();
    let mut next: u32 = lo;
    while next < hi
        invariant
            lo <= next <= hi,
            res@ == natural_order(lo as int, next as int),
        decreases hi - next,
    {
        res.push(next);
        assert(res@ =~= natural_order(lo as int, next + 1));
        next += 1;
    }
    res
}

/// A sequence with the same values as a run of consecutive positions, each as
/// often, is that run in some order: as long, within the same bounds, and
/// without repetition.
proof fn lemma_shuffled_run(shuffled: Seq<u32>, lo: int, hi: int)
    requires
        0 <= lo <= hi <= u32::MAX,
        shuffled.to_multiset() == natural_order(lo, hi).to_multiset(),
    ensures
        shuffled.len() == hi - lo,
        forall|i: int| 0 <= i < shuffled.len() ==> lo <= (#[trigger] shuffled[i]) < hi,
        shuffled.no_duplicates(),
        forall|v: u32| lo <= v < hi ==> shuffled.contains(v),
{
    let run = natural_order(lo, hi);
    shuffled.to_multiset_ensures();
    run.to_multiset_ensures();
    assert(run.no_duplicates());
    run.lemma_multiset_has_no_duplicates();
    shuffled.lemma_multiset_has_no_duplicates_conv();
    assert forall|i: int| 0 <= i < shuffled.len() implies lo <= (#[trigger] shuffled[i]) < hi by {
        let x = shuffled[i];
        assert(shuffled.contains(x));
        assert(run.to_multiset().count(x) > 0);
        assert(run.contains(x));
        let k = choose|k: int| 0 <= k < run.len() && run[k] == x;
        assert(run[k] == (lo + k) as u32);
    }
    assert forall|v: u32| lo <= v < hi implies shuffled.contains(v) by {
        assert(run[v - lo] == v);
        assert(run.contains(v));
        assert(shuffled.to_multiset().count(v) > 0);
    }
}

/// Two runs laid end to end, the first an order of the positions below
/// `mid` and the second an order of those from `mid` on, make an order of
/// all of them.
proof fn lemma_joined_is_permutation(head: Seq<u32>, tail: Seq<u32>, mid: int)
    requires
        head.len() == mid,
        head.len() + tail.len() <= u32::MAX,
        forall|i: int| 0 <= i < head.len() ==> 0 <= (#[trigger] head[i]) < mid,
        forall|i: int| 0 <= i < tail.len() ==> mid <= (#[trigger] tail[i]) < mid + tail.len(),
        head.no_duplicates(),
        tail.no_duplicates(),
        forall|v: u32| 0 <= v < mid ==> head.contains(v),
        forall|v: u32| mid <= v < mid + tail.len() ==> tail.contains(v),
    ensures
        is_permutation(head + tail),
{
    let p = head + tail;
    assert forall|v: u32| v < p.len() implies p.contains(v) by {
        if v < mid {
            assert(head.contains(v));
            let k = choose|k: int| 0 <= k < head.len() && head[k] == v;
            assert(p[k] == v);
        } else {
            assert(tail.contains(v));
            let k = choose|k: int| 0 <= k < tail.len() && tail[k] == v;
            assert(p[mid + k] == v);
        }
    }
    assert forall|i: int, j: int| 0 <= i < j < p.len() implies p[i] != p[j] by {
        if j < mid {
            assert(p[i] == head[i] && p[j] == head[j]);
        } else if i >= mid {
            assert(p[i] == tail[i - mid] && p[j] == tail[j - mid]);
        } else {
            assert(p[i] == head[i] && p[j] == tail[j - mid]);
        }
    }
    assert forall|i: int| 0 <= i < p.len() implies (#[trigger] p[i]) < p.len() by {
        if i < mid {
            assert(p[i] == head[i]);
        } else {
            assert(p[i] == tail[i - mid]);
        }
    }
}

/// A view of a list through an optional shuffle.
#[derive(Debug)]
pub struct ShuffleListModel {
    shuffle: Option<Vec<u32>>,
}

impl View for ShuffleListModel {
    type V = Option<Seq<u32>>;

    closed spec fn view(&self) -> Option<Seq<u32>> {
        match self.shuffle {
            Some(p) => Some(p@),
            None => None,
        }
    }
}

/// The position in the underlying list that the shuffle shows at `position`.
/// Positions that the shuffle does not cover are shown as they are.
pub open spec fn shown_at(shuffle: Option<Seq<u32>>, position: u32) -> u32 {
    match shuffle {
        Some(p) => if position < p.len() {
            p[position as int]
        } else {
            position
        },
        None => position,
    }
}

impl Default for ShuffleListModel {
    fn default() -> (res: Self)
        ensures
            res@ is None,
    {
        ShuffleListModel::new()
    }
}

impl ShuffleListModel {
    /// A model that shows its list in natural order.
    pub fn new() -> (res: ShuffleListModel)
        ensures
            res@ is None,
    {
        ShuffleListModel { shuffle: None }
    }

    pub fn shuffled(&self) -> (res: bool)
        ensures
            res == (self@ is Some),
    {
        self.shuffle.is_some()
    }

    /// The position of the underlying list that is shown at `position`.
    pub fn item(&self, position: u32) -> (res: u32)
        ensures
            res == shown_at(self@, position),
    {
        match &self.shuffle {
            Some(p) => if (position as usize) < p.len() {
                p[position as usize]
            } else {
                position
            },
            None => position,
        }
    }

    /// Draws a new order for a list of `n_items` around `anchor`. With the
    /// anchor first, all that follows it is shuffled; with the anchor last,
    /// all that precedes it; with the anchor inside, only what follows it,
    /// and what precedes it stays in natural order.
    pub fn reshuffle(&mut self, n_items: u32, anchor: u32)
        requires
            n_items == 0 || anchor < n_items,
        ensures
            final(self)@ is Some,
            is_anchored_shuffle(final(self)@->0, n_items as nat, anchor as nat),
    {
        if n_items == 0 {
            self.shuffle = Some(Vec::new());
            return ;
        }
        let positions: Vec<u32> = if anchor == 0 {
            let mut before: Vec<u32> = Vec::new();
            before.push(0);
            let mut after = positions_between(1, n_items);
            shuffle_positions(&mut after);
            let ghost tail = after@;
            proof {
                lemma_shuffled_run(tail, 1, n_items as int);
            }
            before.append(&mut after);
            proof {
                assert(before@ =~= seq![0u32] + tail);
                assert(seq![0u32][0] == 0);
                lemma_joined_is_permutation(seq![0u32], tail, 1);
            }
            before
        } else if anchor == n_items - 1 {
            let mut before = positions_between(0, n_items - 1);
            shuffle_positions(&mut before);
            let ghost head = before@;
            proof {
                lemma_shuffled_run(head, 0, n_items - 1);
            }
            before.push(n_items - 1);
            proof {
                assert(before@ =~= head + seq![anchor]);
                assert(seq![anchor][0] == anchor);
                lemma_joined_is_permutation(head, seq![anchor], anchor as int);
            }
            before
        } else {
            let mut before = positions_between(0, anchor);
            let mut after = positions_between(anchor + 1, n_items);
            shuffle_positions(&mut after);
            let ghost tail = after@;
            proof {
                lemma_shuffled_run(tail, anchor + 1, n_items as int);
            }
            before.push(anchor);
            let ghost head = before@;
            before.append(&mut after);
            proof {
                assert(head =~= natural_order(0, anchor + 1));
                assert forall|v: u32| 0 <= v < anchor + 1 implies head.contains(v) by {
                    assert(head[v as int] == v);
                }
                assert(before@ =~= head + tail);
                lemma_joined_is_permutation(head, tail, anchor + 1);
            }
            before
        };
        self.shuffle = Some(positions);
    }

    /// Goes back to natural order.
    pub fn unshuffle(&mut self)
        ensures
            final(self)@ is None,
    {
        self.shuffle = None;
    }
}

} // verus!
