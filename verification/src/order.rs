//! Ascending sorts of latency samples and the percentile summaries taken from them.
use vstd::prelude::*;

verus! {

broadcast use vstd::seq_lib::group_to_multiset_ensures;

/// Ascending order on `u128`.
pub open spec fn ascending_u128() -> spec_fn(u128, u128) -> bool {
    |a: u128, b: u128| a <= b
}

/// Ascending order on `u64`.
pub open spec fn ascending_u64() -> spec_fn(u64, u64) -> bool {
    |a: u64, b: u64| a <= b
}

proof fn lemma_ascending_u128_total()
    ensures
        vstd::relations::total_ordering(ascending_u128()),
{
}

proof fn lemma_ascending_u64_total()
    ensures
        vstd::relations::total_ordering(ascending_u64()),
{
}

/// Where `x` goes into a sorted sequence: after every smaller element.
proof fn lemma_insert_multiset<A>(s: Seq<A>, pos: int, x: A)
    requires
        0 <= pos <= s.len(),
    ensures
        s.insert(pos, x).to_multiset() =~= s.to_multiset().insert(x),
{
    let left = s.subrange(0, pos);
    let right = s.subrange(pos, s.len() as int);
    assert(s =~= left + right);
    vstd::seq_lib::lemma_multiset_commutative(left.push(x), right);
    vstd::seq_lib::lemma_multiset_commutative(left, right);
}

/// The values in ascending order.
pub fn sort_u128(values: &[u128]) -> (r: Vec<u128>)
    ensures
        r@ == values@.sort_by(ascending_u128()),
{
    let mut r: Vec<u128> = Vec::new();
    let mut i: usize = 0;
    while i < values.len()
        invariant
            i <= values.len(),
            vstd::relations::sorted_by(r@, ascending_u128()),
            r@.to_multiset() == values@.subrange(0, i as int).to_multiset(),
        decreases values.len() - i,
    {
        let x = values[i];
        let mut pos: usize = 0;
        while pos < r.len() && r[pos] <= x
            invariant
                pos <= r.len(),
                forall|k: int| 0 <= k < pos ==> r@[k] <= x,
            decreases r.len() - pos,
        {
            pos = pos + 1;
        }
        let ghost before = r@;
        r.insert(pos, x);
        proof {
            lemma_insert_multiset(before, pos as int, x);
            assert(values@.subrange(0, i + 1) =~= values@.subrange(0, i as int).push(x));
            assert forall|a: int, b: int| 0 <= a < b < r@.len() implies #[trigger] (ascending_u128())(r@[a], r@[b]) by {
                if b < pos {
                    assert((ascending_u128())(before[a], before[b]));
                } else if b == pos {
                    assert(before[a] <= x);
                } else if a == pos {
                    assert(!(before[pos as int] <= x));
                    if b - 1 > pos {
                        assert((ascending_u128())(before[pos as int], before[b - 1]));
                    }
                } else if a < pos {
                    assert((ascending_u128())(before[a], before[b - 1]));
                } else {
                    assert((ascending_u128())(before[a - 1], before[b - 1]));
                }
            }
        }
        i = i + 1;
    }
    proof {
        assert(values@.subrange(0, values.len() as int) =~= values@);
        lemma_ascending_u128_total();
        values@.lemma_sort_by_ensures(ascending_u128());
        vstd::seq_lib::lemma_sorted_unique(r@, values@.sort_by(ascending_u128()), ascending_u128());
    }
    r
}

/// The values in ascending order.
pub fn sort_u64(values: &[u64]) -> (r: Vec<u64>)
    ensures
        r@ == values@.sort_by(ascending_u64()),
{
    let mut r: Vec<u64> = Vec::new();
    let mut i: usize = 0;
    while i < values.len()
        invariant
            i <= values.len(),
            vstd::relations::sorted_by(r@, ascending_u64()),
            r@.to_multiset() == values@.subrange(0, i as int).to_multiset(),
        decreases values.len() - i,
    {
        let x = values[i];
        let mut pos: usize = 0;
        while pos < r.len() && r[pos] <= x
            invariant
                pos <= r.len(),
                forall|k: int| 0 <= k < pos ==> r@[k] <= x,
            decreases r.len() - pos,
        {
            pos = pos + 1;
        }
        let ghost before = r@;
        r.insert(pos, x);
        proof {
            lemma_insert_multiset(before, pos as int, x);
            assert(values@.subrange(0, i + 1) =~= values@.subrange(0, i as int).push(x));
            assert forall|a: int, b: int| 0 <= a < b < r@.len() implies #[trigger] (ascending_u64())(r@[a], r@[b]) by {
                if b < pos {
                    assert((ascending_u64())(before[a], before[b]));
                } else if b == pos {
                    assert(before[a] <= x);
                } else if a == pos {
                    assert(!(before[pos as int] <= x));
                    if b - 1 > pos {
                        assert((ascending_u64())(before[pos as int], before[b - 1]));
                    }
                } else if a < pos {
                    assert((ascending_u64())(before[a], before[b - 1]));
                } else {
                    assert((ascending_u64())(before[a - 1], before[b - 1]));
                }
            }
        }
        i = i + 1;
    }
    proof {
        assert(values@.subrange(0, values.len() as int) =~= values@);
        lemma_ascending_u64_total();
        values@.lemma_sort_by_ensures(ascending_u64());
        vstd::seq_lib::lemma_sorted_unique(r@, values@.sort_by(ascending_u64()), ascending_u64());
    }
    r
}

/// A sorted sample holds the same values as the sample, in ascending order.
pub proof fn sorted_samples_keep_their_values_u128(values: Seq<u128>)
    ensures
        values.sort_by(ascending_u128()).to_multiset() == values.to_multiset(),
        vstd::relations::sorted_by(values.sort_by(ascending_u128()), ascending_u128()),
        values.sort_by(ascending_u128()).len() == values.len(),
{
    lemma_ascending_u128_total();
    values.lemma_sort_by_ensures(ascending_u128());
    assert(values.sort_by(ascending_u128()).len() == values.sort_by(ascending_u128()).to_multiset().len());
}

/// A sorted sample holds the same values as the sample, in ascending order.
pub proof fn sorted_samples_keep_their_values_u64(values: Seq<u64>)
    ensures
        values.sort_by(ascending_u64()).to_multiset() == values.to_multiset(),
        vstd::relations::sorted_by(values.sort_by(ascending_u64()), ascending_u64()),
        values.sort_by(ascending_u64()).len() == values.len(),
{
    lemma_ascending_u64_total();
    values.lemma_sort_by_ensures(ascending_u64());
    assert(values.sort_by(ascending_u64()).len() == values.sort_by(ascending_u64()).to_multiset().len());
}

/// The summary percentile of the benchmark reports: zero for no samples,
/// otherwise the sample at position `ceil((n - 1) * p / 100)` in ascending
/// order, held to the last position.
pub open spec fn benchmark_percentile(values: Seq<u64>, p: usize) -> u64 {
    if values.len() == 0 {
        0
    } else {
        let rank = (((values.len() - 1) * p + 99) / 100) as int;
        let index = if rank < values.len() - 1 { rank } else { values.len() - 1 };
        values.sort_by(ascending_u64())[index]
    }
}

/// The benchmark percentile of the samples.
pub fn benchmark_percentile_of(values: &[u64], percentile: usize) -> (r: u64)
    requires
        values.len() == 0 || (values.len() - 1) * percentile + 99 <= usize::MAX,
    ensures
        r == benchmark_percentile(values@, percentile),
{
    if values.len() == 0 {
        return 0;
    }
    let sorted = sort_u64(values);
    proof {
        sorted_samples_keep_their_values_u64(values@);
    }
    let last = sorted.len() - 1;
    let rank = (last * percentile + 99) / 100;
    let index = if rank < last { rank } else { last };
    sorted[index]
}

/// The benchmark percentile of a non-empty sample is one of the samples.
pub proof fn benchmark_percentile_is_a_sample(values: Seq<u64>, p: usize)
    requires
        values.len() > 0,
    ensures
        values.contains(benchmark_percentile(values, p)),
{
    sorted_samples_keep_their_values_u64(values);
    let sorted = values.sort_by(ascending_u64());
    let rank = (((values.len() - 1) * p + 99) / 100) as int;
    let index = if rank < values.len() - 1 { rank } else { values.len() - 1 };
    assert(0 <= index < sorted.len()) by (nonlinear_arith)
        requires
            values.len() > 0,
            sorted.len() == values.len(),
            rank == (((values.len() - 1) * p + 99) / 100) as int,
            index == (if rank < values.len() - 1 { rank } else { values.len() - 1 }),
            p >= 0;
    assert(sorted.contains(sorted[index]));
    assert(sorted.to_multiset().count(sorted[index]) > 0);
}

/// The largest sample, if any.
pub open spec fn max_of(values: Seq<u64>) -> Option<u64>
    decreases values.len(),
{
    if values.len() == 0 {
        None
    } else {
        match max_of(values.drop_last()) {
            None => Some(values.last()),
            Some(m) => Some(if m >= values.last() { m } else { values.last() }),
        }
    }
}

/// The largest sample, if any.
pub fn max_u64(values: &[u64]) -> (r: Option<u64>)
    ensures
        r == max_of(values@),
{
    let mut best: Option<u64> = None;
    let mut i: usize = 0;
    while i < values.len()
        invariant
            i <= values.len(),
            best == max_of(values@.subrange(0, i as int)),
        decreases values.len() - i,
    {
        proof {
            assert(values@.subrange(0, i + 1).drop_last() =~= values@.subrange(0, i as int));
        }
        let x = values[i];
        best = match best {
            None => Some(x),
            Some(m) => Some(if m >= x { m } else { x }),
        };
        i = i + 1;
    }
    assert(values@.subrange(0, values.len() as int) =~= values@);
    best
}

/// The largest sample, if any.
pub open spec fn max_of_u128(values: Seq<u128>) -> Option<u128>
    decreases values.len(),
{
    if values.len() == 0 {
        None
    } else {
        match max_of_u128(values.drop_last()) {
            None => Some(values.last()),
            Some(m) => Some(if m >= values.last() { m } else { values.last() }),
        }
    }
}

/// The largest sample, if any.
pub fn max_u128(values: &[u128]) -> (r: Option<u128>)
    ensures
        r == max_of_u128(values@),
{
    let mut best: Option<u128> = None;
    let mut i: usize = 0;
    while i < values.len()
        invariant
            i <= values.len(),
            best == max_of_u128(values@.subrange(0, i as int)),
        decreases values.len() - i,
    {
        proof {
            assert(values@.subrange(0, i + 1).drop_last() =~= values@.subrange(0, i as int));
        }
        let x = values[i];
        best = match best {
            None => Some(x),
            Some(m) => Some(if m >= x { m } else { x }),
        };
        i = i + 1;
    }
    assert(values@.subrange(0, values.len() as int) =~= values@);
    best
}

} // verus!
