//! Choosing the nearest of a row of measurements.
//!
//! A measurement is an unsigned key: a smaller key is a shorter distance, and
//! equal keys are equal distances. Among rows at the shortest distance the
//! one that comes first wins.

use vstd::prelude::*;

verus! {

/// `i` is the place of the smallest key, and of the first such where the
/// smallest occurs more than once.
pub open spec fn is_first_min(keys: Seq<u64>, i: int) -> bool {
    &&& 0 <= i < keys.len()
    &&& forall|j: int| 0 <= j < keys.len() ==> keys[i] <= #[trigger] keys[j]
    &&& forall|j: int| 0 <= j < i ==> keys[i] < #[trigger] keys[j]
}

/// The place of the winner among `keys`.
pub open spec fn first_min(keys: Seq<u64>) -> int {
    choose|i: int| is_first_min(keys, i)
}

/// The place that a scan of the first `n` keys arrives at, when it starts
/// with the first key as its candidate and replaces the candidate only by a
/// key that is strictly smaller.
pub open spec fn scan(keys: Seq<u64>, n: nat) -> int
    decreases n,
{
    if n <= 1 {
        0
    } else {
        let best = scan(keys, (n - 1) as nat);
        if keys[n - 1] < keys[best] {
            n - 1
        } else {
            best
        }
    }
}

/// A scan of a prefix arrives at the first smallest key of that prefix.
pub proof fn lemma_scan_is_first_min(keys: Seq<u64>, n: nat)
    requires
        1 <= n <= keys.len(),
    ensures
        is_first_min(keys.take(n as int), scan(keys, n)),
    decreases n,
{
    if n > 1 {
        lemma_scan_is_first_min(keys, (n - 1) as nat);
        let shorter = keys.take(n - 1);
        let longer = keys.take(n as int);
        assert(forall|j: int| 0 <= j < n - 1 ==> #[trigger] longer[j] == shorter[j]);
    }
}

/// Where there is a key at all, exactly one place is that of the first
/// smallest key, and it is the one a scan of all keys arrives at: the minimum
/// is reached, and a later row at the same distance never displaces an
/// earlier one.
pub proof fn lemma_first_min_unique(keys: Seq<u64>, i: int)
    requires
        keys.len() > 0,
    ensures
        is_first_min(keys, first_min(keys)),
        is_first_min(keys, i) ==> i == first_min(keys),
        scan(keys, keys.len()) == first_min(keys),
{
    lemma_scan_is_first_min(keys, keys.len());
    assert(keys.take(keys.len() as int) =~= keys);
}

/// Where all keys are equal, the first row wins.
pub proof fn lemma_all_tied(keys: Seq<u64>)
    requires
        keys.len() > 0,
        forall|j: int| 0 <= j < keys.len() ==> #[trigger] keys[j] == keys[0],
    ensures
        first_min(keys) == 0,
{
    lemma_first_min_unique(keys, 0);
}

/// The winner depends on the order of the keys alone: two rows of keys that
/// compare alike, place against place, have the same winner.
pub proof fn lemma_order_alone_decides(a: Seq<u64>, b: Seq<u64>)
    requires
        a.len() == b.len(),
        forall|i: int, j: int|
            0 <= i < a.len() && 0 <= j < a.len() ==> (#[trigger] a[i] < #[trigger] a[j] <==> b[i] < b[j]),
    ensures
        first_min(a) == first_min(b),
{
    if a.len() > 0 {
        let w = first_min(a);
        lemma_first_min_unique(a, w);
        assert forall|j: int| 0 <= j < b.len() implies b[w] <= #[trigger] b[j] by {
            assert(!(a[j] < a[w]));
        }
        assert forall|j: int| 0 <= j < w implies b[w] < #[trigger] b[j] by {
            assert(a[w] < a[j]);
        }
        lemma_first_min_unique(b, w);
    } else {
        assert(a =~= b);
    }
}

/// The place of the nearest row: `None` where there is no row.
pub fn nearest(keys: &Vec<u64>) -> (r: Option<usize>)
    ensures
        keys.len() == 0 ==> r is None,
        keys.len() > 0 ==> r == Some(first_min(keys@) as usize),
        keys.len() > 0 ==> is_first_min(keys@, first_min(keys@)),
{
    if keys.len() == 0 {
        return None;
    }
    let mut best: usize = 0;
    let mut i: usize = 1;
    while i < keys.len()
        invariant
            1 <= i <= keys.len(),
            0 <= best < i,
            best == scan(keys@, i as nat),
        decreases keys.len() - i,
    {
        if keys[i] < keys[best] {
            best = i;
        }
        i += 1;
    }
    proof {
        lemma_first_min_unique(keys@, best as int);
    }
    Some(best)
}

} // verus!
