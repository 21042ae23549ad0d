//! Ranking by a key: the greatest first, equal ones in the order in which they came.

use vstd::prelude::*;

verus! {

/// Whether position `a` ranks before position `b`.
pub open spec fn ranks_before(keys: Seq<u64>, a: int, b: int) -> bool {
    keys[a] > keys[b] || (keys[a] == keys[b] && a < b)
}

/// Whether `order` lists the positions `lo..hi` of `keys`, each once, by rank.
pub open spec fn ranks_range(keys: Seq<u64>, order: Seq<usize>, lo: int, hi: int) -> bool {
    &&& order.len() == hi - lo
    &&& forall|i: int| 0 <= i < order.len() ==> lo <= #[trigger] order[i] < hi
    &&& forall|a: usize| lo <= a < hi ==> #[trigger] order.contains(a)
    &&& forall|i: int, j: int|
        0 <= i < j < order.len() ==> ranks_before(
            keys,
            #[trigger] order[i] as int,
            #[trigger] order[j] as int,
        )
}

/// Whether `order` is the ranking of `keys`: all positions, each once, the greatest key first and
/// equal keys in the order of their positions.
pub open spec fn is_ranking(keys: Seq<u64>, order: Seq<usize>) -> bool {
    ranks_range(keys, order, 0, keys.len() as int)
}

/// The ranking of `keys`.
pub open spec fn ranking(keys: Seq<u64>) -> Seq<usize> {
    choose|order: Seq<usize>| is_ranking(keys, order)
}

/// The items of `items` in the order that `order` lists their positions.
pub open spec fn arranged<T>(items: Seq<T>, order: Seq<usize>) -> Seq<T> {
    order.map_values(|a: usize| items[a as int])
}

/// Keys have one ranking only.
pub proof fn ranking_is_unique(keys: Seq<u64>, p: Seq<usize>, q: Seq<usize>)
    requires
        is_ranking(keys, p),
        is_ranking(keys, q),
    ensures
        p == q,
{
    assert forall|i: int| 0 <= i < p.len() implies p[i] == q[i] by {
        same_prefix(keys, p, q, i + 1);
        assert(p.take(i + 1)[i] == q.take(i + 1)[i]);
    }
    assert(p =~= q);
}

proof fn same_prefix(keys: Seq<u64>, p: Seq<usize>, q: Seq<usize>, n: int)
    requires
        is_ranking(keys, p),
        is_ranking(keys, q),
        0 <= n <= p.len(),
    ensures
        p.take(n) == q.take(n),
    decreases n,
{
    if n > 0 {
        let i = n - 1;
        same_prefix(keys, p, q, i);
        if p[i] != q[i] {
            assert(q.contains(p[i]));
            let k = choose|k: int| 0 <= k < q.len() && q[k] == p[i];
            assert(p.contains(q[i]));
            let m = choose|m: int| 0 <= m < p.len() && p[m] == q[i];
            if k < i {
                assert(p.take(i)[k] == q.take(i)[k]);
                assert(p[k] == p[i]);
                assert(ranks_before(keys, p[k] as int, p[i] as int));
            }
            if m < i {
                assert(p.take(i)[m] == q.take(i)[m]);
                assert(ranks_before(keys, q[m] as int, q[i] as int));
            }
            assert(k > i && m > i);
            assert(ranks_before(keys, q[i] as int, q[k] as int));
            assert(ranks_before(keys, p[i] as int, p[m] as int));
        }
        assert(p.take(n) =~= q.take(n));
    } else {
        assert(p.take(n) =~= q.take(n));
    }
}

/// Merges the rankings of two adjacent ranges.
fn merge(
    keys: &Vec<u64>,
    left: &Vec<usize>,
    right: &Vec<usize>,
    Ghost(lo): Ghost<int>,
    Ghost(mid): Ghost<int>,
    Ghost(hi): Ghost<int>,
) -> (r: Vec<usize>)
    requires
        0 <= lo <= mid <= hi <= keys@.len(),
        ranks_range(keys@, left@, lo, mid),
        ranks_range(keys@, right@, mid, hi),
    ensures
        ranks_range(keys@, r@, lo, hi),
{
    let mut r: Vec<usize> = Vec::new();
    let mut i: usize = 0;
    let mut j: usize = 0;
    while i < left.len() || j < right.len()
        invariant
            0 <= lo <= mid <= hi <= keys@.len(),
            ranks_range(keys@, left@, lo, mid),
            ranks_range(keys@, right@, mid, hi),
            i <= left@.len(),
            j <= right@.len(),
            r@.len() == i + j,
            forall|k: int| 0 <= k < r@.len() ==> lo <= #[trigger] r@[k] < hi,
            forall|k: int| 0 <= k < i ==> r@.contains(#[trigger] left@[k]),
            forall|k: int| 0 <= k < j ==> r@.contains(#[trigger] right@[k]),
            forall|k: int, m: int|
                0 <= k < m < r@.len() ==> ranks_before(
                    keys@,
                    #[trigger] r@[k] as int,
                    #[trigger] r@[m] as int,
                ),
            forall|k: int, m: int|
                0 <= k < r@.len() && i <= m < left@.len() ==> ranks_before(
                    keys@,
                    #[trigger] r@[k] as int,
                    #[trigger] left@[m] as int,
                ),
            forall|k: int, m: int|
                0 <= k < r@.len() && j <= m < right@.len() ==> ranks_before(
                    keys@,
                    #[trigger] r@[k] as int,
                    #[trigger] right@[m] as int,
                ),
        decreases left@.len() - i + right@.len() - j,
    {
        let ghost before = r@;
        if j == right.len() || (i < left.len() && keys[left[i]] >= keys[right[j]]) {
            let a: usize = left[i];
            r.push(a);
            i += 1;
            proof {
                assert(r@[before.len() as int] == a);
                assert forall|x: usize| before.contains(x) implies r@.contains(x) by {
                    let k = choose|k: int| 0 <= k < before.len() && before[k] == x;
                    assert(r@[k] == x);
                }
            }
        } else {
            let a: usize = right[j];
            r.push(a);
            j += 1;
            proof {
                assert(r@[before.len() as int] == a);
                assert forall|x: usize| before.contains(x) implies r@.contains(x) by {
                    let k = choose|k: int| 0 <= k < before.len() && before[k] == x;
                    assert(r@[k] == x);
                }
            }
        }
    }
    proof {
        assert forall|a: usize| lo <= a < hi implies #[trigger] r@.contains(a) by {
            if a < mid {
                assert(left@.contains(a));
                let k = choose|k: int| 0 <= k < left@.len() && left@[k] == a;
                assert(r@.contains(left@[k]));
            } else {
                assert(right@.contains(a));
                let k = choose|k: int| 0 <= k < right@.len() && right@[k] == a;
                assert(r@.contains(right@[k]));
            }
        }
    }
    r
}

/// Ranks the positions `lo..hi`.
fn rank_range(keys: &Vec<u64>, lo: usize, hi: usize) -> (r: Vec<usize>)
    requires
        lo <= hi <= keys@.len(),
    ensures
        ranks_range(keys@, r@, lo as int, hi as int),
    decreases hi - lo,
{
    if hi - lo <= 1 {
        let mut r: Vec<usize> = Vec::new();
        if lo < hi {
            r.push(lo);
            assert(r@[0] == lo);
        }
        r
    } else {
        let mid: usize = lo + (hi - lo) / 2;
        let left = rank_range(keys, lo, mid);
        let right = rank_range(keys, mid, hi);
        merge(keys, &left, &right, Ghost(lo as int), Ghost(mid as int), Ghost(hi as int))
    }
}

/// Ranks the positions of `keys`: the greatest key first, equal keys in the order in which they
/// stand.
pub fn rank(keys: &Vec<u64>) -> (r: Vec<usize>)
    ensures
        is_ranking(keys@, r@),
        r@ == ranking(keys@),
{
    let r = rank_range(keys, 0, keys.len());
    proof {
        assert(is_ranking(keys@, r@));
        ranking_is_unique(keys@, r@, ranking(keys@));
    }
    r
}

/// How many of the first `n` positions of `order` hold a key of at least `key`, where the keys
/// descend along `order`.
spec fn count_at_least(keys: Seq<u64>, order: Seq<usize>, key: u64, n: int) -> int
    decreases n,
{
    if n <= 0 || keys[order[n - 1] as int] >= key {
        n
    } else {
        count_at_least(keys, order, key, n - 1)
    }
}

proof fn count_splits(keys: Seq<u64>, order: Seq<usize>, key: u64, n: int)
    requires
        0 <= n <= order.len(),
        forall|i: int, j: int|
            0 <= i < j < order.len() ==> keys[#[trigger] order[i] as int]
                >= keys[#[trigger] order[j] as int],
    ensures
        0 <= count_at_least(keys, order, key, n) <= n,
        forall|i: int|
            0 <= i < count_at_least(keys, order, key, n) ==> keys[#[trigger] order[i] as int]
                >= key,
        forall|i: int|
            count_at_least(keys, order, key, n) <= i < n ==> keys[#[trigger] order[i] as int] < key,
    decreases n,
{
    if n > 0 && keys[order[n - 1] as int] < key {
        count_splits(keys, order, key, n - 1);
    }
}

/// Keys have a ranking.
pub proof fn ranking_exists(keys: Seq<u64>)
    requires
        keys.len() <= usize::MAX,
    ensures
        is_ranking(keys, ranking(keys)),
    decreases keys.len(),
{
    if keys.len() == 0 {
        assert(is_ranking(keys, Seq::<usize>::empty()));
    } else {
        let shorter = keys.drop_last();
        ranking_exists(shorter);
        let p = ranking(shorter);
        let last = (keys.len() - 1) as usize;
        assert forall|i: int, j: int| 0 <= i < j < p.len() implies keys[#[trigger] p[i] as int]
            >= keys[#[trigger] p[j] as int] by {
            assert(ranks_before(shorter, p[i] as int, p[j] as int));
        }
        let k = count_at_least(keys, p, keys.last(), p.len() as int);
        count_splits(keys, p, keys.last(), p.len() as int);
        let q = p.insert(k, last);
        assert forall|a: usize| 0 <= a < keys.len() implies #[trigger] q.contains(a) by {
            if a == last {
                assert(q[k] == a);
            } else {
                assert(p.contains(a));
                let i = choose|i: int| 0 <= i < p.len() && p[i] == a;
                if i < k {
                    assert(q[i] == a);
                } else {
                    assert(q[i + 1] == a);
                }
            }
        }
        assert forall|i: int, j: int| 0 <= i < j < q.len() implies ranks_before(
            keys,
            #[trigger] q[i] as int,
            #[trigger] q[j] as int,
        ) by {
            let a = if i < k {
                i
            } else {
                i - 1
            };
            let b = if j < k {
                j
            } else {
                j - 1
            };
            if i != k && j != k {
                assert(ranks_before(shorter, p[a] as int, p[b] as int));
            }
        }
        assert(is_ranking(keys, q));
    }
}

/// A ranking lists each position once and no other, and keys descend along it; equal keys stand in
/// the order of their positions.
pub proof fn ranking_descends(keys: Seq<u64>)
    requires
        keys.len() <= usize::MAX,
    ensures
        ranking(keys).len() == keys.len(),
        ranking(keys).no_duplicates(),
        forall|a: usize| 0 <= a < keys.len() <==> #[trigger] ranking(keys).contains(a),
        forall|i: int, j: int|
            0 <= i < j < keys.len() ==> {
                let a = #[trigger] ranking(keys)[i];
                let b = #[trigger] ranking(keys)[j];
                keys[a as int] >= keys[b as int] && (keys[a as int] == keys[b as int] ==> a < b)
            },
{
    ranking_exists(keys);
    let p = ranking(keys);
    assert forall|i: int, j: int| 0 <= i < p.len() && 0 <= j < p.len() && i != j implies p[i]
        != p[j] by {
        if i < j {
            assert(ranks_before(keys, p[i] as int, p[j] as int));
        } else {
            assert(ranks_before(keys, p[j] as int, p[i] as int));
        }
    }
    assert forall|i: int, j: int| 0 <= i < j < keys.len() implies {
        let a = #[trigger] p[i];
        let b = #[trigger] p[j];
        keys[a as int] >= keys[b as int] && (keys[a as int] == keys[b as int] ==> a < b)
    } by {
        assert(ranks_before(keys, p[i] as int, p[j] as int));
    }
}

/// Arranging puts at each place the item that the order names there.
pub proof fn arranging_follows_the_order<T>(items: Seq<T>, order: Seq<usize>)
    ensures
        arranged(items, order).len() == order.len(),
        forall|i: int|
            0 <= i < order.len() ==> #[trigger] arranged(items, order)[i] == items[order[i] as int],
{
}

} // verus!
