//! Chronological order of raw observations.
//!
//! A provider hands out `(timestamp, value)` pairs in no particular order.
//! The order computed here is by timestamp, and observations that share a
//! timestamp keep the order in which they were received. It is stated over
//! positions, so that the values themselves are only moved, never read.
use vstd::prelude::*;

verus! {

/// Observation `i` comes before observation `j`: it is earlier, or as early
/// and received first.
pub open spec fn precedes(timestamps: Seq<i64>, i: int, j: int) -> bool {
    timestamps[i] < timestamps[j] || (timestamps[i] == timestamps[j] && i < j)
}

/// Position `i` occurs in `order`.
pub open spec fn holds_position(order: Seq<usize>, i: int) -> bool {
    exists|k: int| 0 <= k < order.len() && #[trigger] order[k] == i
}

/// `order` lists the first `count` positions of `timestamps`, each once, and
/// every entry comes before the entries behind it.
pub open spec fn orders_prefix(timestamps: Seq<i64>, order: Seq<usize>, count: int) -> bool {
    &&& 0 <= count <= timestamps.len()
    &&& order.len() == count
    &&& forall|k: int| 0 <= k < order.len() ==> #[trigger] order[k] < count
    &&& forall|i: int| 0 <= i < count ==> #[trigger] holds_position(order, i)
    &&& forall|a: int, b: int|
        0 <= a < b < order.len() ==> precedes(
            timestamps,
            #[trigger] order[a] as int,
            #[trigger] order[b] as int,
        )
}

/// `order` is the chronological order of all positions of `timestamps`: a
/// permutation of the positions, ascending by timestamp, in which
/// observations of one timestamp stay in the order they were received in.
pub open spec fn is_chronological_order(timestamps: Seq<i64>, order: Seq<usize>) -> bool {
    orders_prefix(timestamps, order, timestamps.len() as int)
}

/// The chronological order of `timestamps`. There is exactly one; see
/// [`lemma_chronological_order_unique`].
pub open spec fn chronological_order_of(timestamps: Seq<i64>) -> Seq<usize> {
    choose|order: Seq<usize>| is_chronological_order(timestamps, order)
}

/// The values picked in the given order.
pub open spec fn arranged<T>(values: Seq<T>, order: Seq<usize>) -> Seq<T> {
    Seq::new(order.len(), |k: int| values[order[k] as int])
}

/// The timestamps of a sequence of observations.
pub open spec fn timestamps_of<T>(observations: Seq<(i64, T)>) -> Seq<i64> {
    Seq::new(observations.len(), |i: int| observations[i].0)
}

/// The values of a sequence of observations.
pub open spec fn values_of<T>(observations: Seq<(i64, T)>) -> Seq<T> {
    Seq::new(observations.len(), |i: int| observations[i].1)
}

/// The values of `observations` in chronological order.
pub open spec fn chronological<T>(observations: Seq<(i64, T)>) -> Seq<T> {
    arranged(values_of(observations), chronological_order_of(timestamps_of(observations)))
}

/// Two chronological orders of the same timestamps agree on their first
/// `upto` entries.
proof fn lemma_orders_agree(timestamps: Seq<i64>, first: Seq<usize>, second: Seq<usize>, upto: int)
    requires
        is_chronological_order(timestamps, first),
        is_chronological_order(timestamps, second),
        0 <= upto <= timestamps.len(),
    ensures
        forall|k: int| 0 <= k < upto ==> first[k] == second[k],
    decreases upto,
{
    if upto > 0 {
        lemma_orders_agree(timestamps, first, second, upto - 1);
        let k = upto - 1;
        let x = first[k] as int;
        let y = second[k] as int;
        if x != y {
            // Each of the two entries occurs in the other order, behind `k`.
            assert(holds_position(second, x));
            let m = choose|m: int| 0 <= m < second.len() && second[m] == x;
            assert(holds_position(first, y));
            let l = choose|l: int| 0 <= l < first.len() && first[l] == y;
            if m < k {
                assert(first[m] == second[m]);
                assert(precedes(timestamps, first[m] as int, first[k] as int));
            }
            if l < k {
                assert(first[l] == second[l]);
                assert(precedes(timestamps, second[l] as int, second[k] as int));
            }
            assert(precedes(timestamps, second[k] as int, second[m] as int));
            assert(precedes(timestamps, first[k] as int, first[l] as int));
        }
    }
}

/// A sequence of timestamps has one chronological order only.
pub proof fn lemma_chronological_order_unique(
    timestamps: Seq<i64>,
    first: Seq<usize>,
    second: Seq<usize>,
)
    requires
        is_chronological_order(timestamps, first),
        is_chronological_order(timestamps, second),
    ensures
        first == second,
{
    lemma_orders_agree(timestamps, first, second, timestamps.len() as int);
    assert(first =~= second);
}

/// In chronological order the timestamps never descend, and they ascend
/// strictly where no two observations share a timestamp.
pub proof fn lemma_chronological_ascending(timestamps: Seq<i64>, order: Seq<usize>)
    requires
        is_chronological_order(timestamps, order),
    ensures
        forall|a: int, b: int|
            0 <= a < b < order.len() ==> timestamps[#[trigger] order[a] as int]
                <= timestamps[#[trigger] order[b] as int],
        (forall|i: int, j: int|
            0 <= i < j < timestamps.len() ==> #[trigger] timestamps[i] != #[trigger] timestamps[j])
            ==> forall|a: int, b: int|
            0 <= a < b < order.len() ==> timestamps[#[trigger] order[a] as int]
                < timestamps[#[trigger] order[b] as int],
{
    assert forall|a: int, b: int| 0 <= a < b < order.len() implies timestamps[#[trigger] order[a]
        as int] <= timestamps[#[trigger] order[b] as int] by {
        assert(precedes(timestamps, order[a] as int, order[b] as int));
    }
    if forall|i: int, j: int|
        0 <= i < j < timestamps.len() ==> #[trigger] timestamps[i] != #[trigger] timestamps[j] {
        assert forall|a: int, b: int| 0 <= a < b < order.len() implies timestamps[
            #[trigger] order[a] as int] < timestamps[#[trigger] order[b] as int] by {
            let x = order[a] as int;
            let y = order[b] as int;
            assert(precedes(timestamps, x, y));
            if timestamps[x] == timestamps[y] {
                assert(x < y);
                assert(timestamps[x] != timestamps[y]);
            }
        }
    }
}

/// Putting position `count` into an order of the first `count` positions,
/// behind every entry that is not later than it, orders the first
/// `count + 1` positions.
proof fn lemma_insert_orders(timestamps: Seq<i64>, order: Seq<usize>, count: int, at: int)
    requires
        orders_prefix(timestamps, order, count),
        count < timestamps.len(),
        count <= usize::MAX,
        0 <= at <= order.len(),
        forall|k: int| 0 <= k < at ==> timestamps[#[trigger] order[k] as int] <= timestamps[count],
        forall|k: int|
            at <= k < order.len() ==> timestamps[#[trigger] order[k] as int] > timestamps[count],
    ensures
        orders_prefix(timestamps, order.insert(at, count as usize), count + 1),
{
    let grown = order.insert(at, count as usize);
    assert(grown.len() == count + 1);
    assert forall|k: int| 0 <= k < grown.len() implies #[trigger] grown[k] < count + 1 by {
        if k < at {
            assert(grown[k] == order[k]);
        } else if k > at {
            assert(grown[k] == order[k - 1]);
        }
    }
    assert forall|i: int| 0 <= i < count + 1 implies #[trigger] holds_position(grown, i) by {
        if i == count {
            assert(grown[at] == i);
        } else {
            assert(holds_position(order, i));
            let k = choose|k: int| 0 <= k < order.len() && order[k] == i;
            if k < at {
                assert(grown[k] == i);
            } else {
                assert(grown[k + 1] == order[k]);
            }
        }
    }
    assert forall|a: int, b: int| 0 <= a < b < grown.len() implies precedes(
        timestamps,
        #[trigger] grown[a] as int,
        #[trigger] grown[b] as int,
    ) by {
        let before = if a < at {
            a
        } else {
            a - 1
        };
        let behind = if b < at {
            b
        } else {
            b - 1
        };
        if a == at {
            assert(grown[b] == order[behind]);
            assert(timestamps[order[behind] as int] > timestamps[count]);
        } else if b == at {
            assert(grown[a] == order[before]);
            assert(timestamps[order[before] as int] <= timestamps[count]);
            assert(order[before] < count);
        } else {
            assert(grown[a] == order[before]);
            assert(grown[b] == order[behind]);
            assert(precedes(timestamps, order[before] as int, order[behind] as int));
        }
    }
}

/// Where position `count` goes into an order of the first `count`
/// positions: behind the entries that are not later than it, before the
/// entries that are. `from` is a place behind which every entry is later.
proof fn lemma_insertion_point(
    timestamps: Seq<i64>,
    order: Seq<usize>,
    count: int,
    from: int,
) -> (at: int)
    requires
        orders_prefix(timestamps, order, count),
        count < timestamps.len(),
        0 <= from <= order.len(),
        forall|k: int|
            from <= k < order.len() ==> timestamps[#[trigger] order[k] as int] > timestamps[count],
    ensures
        0 <= at <= order.len(),
        forall|k: int| 0 <= k < at ==> timestamps[#[trigger] order[k] as int] <= timestamps[count],
        forall|k: int|
            at <= k < order.len() ==> timestamps[#[trigger] order[k] as int] > timestamps[count],
    decreases from,
{
    if from > 0 && timestamps[order[from - 1] as int] > timestamps[count] {
        lemma_insertion_point(timestamps, order, count, from - 1)
    } else {
        assert forall|k: int| 0 <= k < from implies timestamps[#[trigger] order[k] as int]
            <= timestamps[count] by {
            if k < from - 1 {
                assert(precedes(timestamps, order[k] as int, order[from - 1] as int));
            }
        }
        from
    }
}

/// The first `count` positions of any timestamps can be put in order.
proof fn lemma_prefix_order_exists(timestamps: Seq<i64>, count: int) -> (order: Seq<usize>)
    requires
        0 <= count <= timestamps.len(),
        count <= usize::MAX,
    ensures
        orders_prefix(timestamps, order, count),
    decreases count,
{
    if count == 0 {
        Seq::empty()
    } else {
        let shorter = lemma_prefix_order_exists(timestamps, count - 1);
        let at = lemma_insertion_point(timestamps, shorter, count - 1, shorter.len() as int);
        lemma_insert_orders(timestamps, shorter, count - 1, at);
        shorter.insert(at, (count - 1) as usize)
    }
}

/// Timestamps that a vector can hold have a chronological order, and
/// [`chronological_order_of`] is that order. So whatever is stated through
/// it, the prices of a series among them, is stated of positions that
/// ascend by timestamp: see [`lemma_chronological_ascending`].
pub proof fn lemma_chronological_order_exists(timestamps: Seq<i64>)
    requires
        timestamps.len() <= usize::MAX,
    ensures
        is_chronological_order(timestamps, chronological_order_of(timestamps)),
{
    let order = lemma_prefix_order_exists(timestamps, timestamps.len() as int);
    assert(is_chronological_order(timestamps, order));
}

/// The prices of a series are those of its observations, taken in an order
/// in which the timestamps never descend, and ascend strictly where no two
/// observations share a timestamp.
pub proof fn lemma_series_ascends<T>(observations: Seq<(i64, T)>)
    requires
        observations.len() <= usize::MAX,
    ensures
        ({
            let order = chronological_order_of(timestamps_of(observations));
            &&& is_chronological_order(timestamps_of(observations), order)
            &&& chronological(observations).len() == observations.len()
            &&& forall|k: int|
                0 <= k < observations.len() ==> #[trigger] chronological(observations)[k]
                    == observations[order[k] as int].1
            &&& forall|a: int, b: int|
                0 <= a < b < observations.len() ==> observations[#[trigger] order[a] as int].0
                    <= observations[#[trigger] order[b] as int].0
            &&& (forall|i: int, j: int|
                0 <= i < j < observations.len() ==> (#[trigger] observations[i]).0
                    != (#[trigger] observations[j]).0) ==> forall|a: int, b: int|
                0 <= a < b < observations.len() ==> observations[#[trigger] order[a] as int].0
                    < observations[#[trigger] order[b] as int].0
        }),
{
    let timestamps = timestamps_of(observations);
    let order = chronological_order_of(timestamps);
    lemma_chronological_order_exists(timestamps);
    lemma_chronological_ascending(timestamps, order);
    assert forall|a: int, b: int| 0 <= a < b < observations.len() implies observations[
        #[trigger] order[a] as int].0 <= observations[#[trigger] order[b] as int].0 by {
        assert(timestamps[order[a] as int] <= timestamps[order[b] as int]);
    }
    if forall|i: int, j: int|
        0 <= i < j < observations.len() ==> (#[trigger] observations[i]).0 != (
        #[trigger] observations[j]).0 {
        assert forall|i: int, j: int| 0 <= i < j < timestamps.len() implies #[trigger] timestamps[i]
            != #[trigger] timestamps[j] by {
            assert(observations[i].0 != observations[j].0);
        }
        assert forall|a: int, b: int| 0 <= a < b < observations.len() implies observations[
            #[trigger] order[a] as int].0 < observations[#[trigger] order[b] as int].0 by {
            assert(timestamps[order[a] as int] < timestamps[order[b] as int]);
        }
    }
}

/// The chronological order of `timestamps`, as positions into it.
pub fn chronological_order(timestamps: &Vec<i64>) -> (order: Vec<usize>)
    ensures
        is_chronological_order(timestamps@, order@),
        order@ == chronological_order_of(timestamps@),
{
    let mut order: Vec<usize> = Vec::new();
    let mut next: usize = 0;
    while next < timestamps.len()
        invariant
            next <= timestamps.len(),
            orders_prefix(timestamps@, order@, next as int),
        decreases timestamps.len() - next,
    {
        let stamp: i64 = timestamps[next];
        let mut at: usize = order.len();
        while at > 0 && timestamps[order[at - 1]] > stamp
            invariant
                at <= order.len(),
                next < timestamps.len(),
                stamp == timestamps@[next as int],
                orders_prefix(timestamps@, order@, next as int),
                forall|k: int|
                    at <= k < order.len() ==> timestamps@[#[trigger] order@[k] as int] > stamp,
            decreases at,
        {
            at -= 1;
        }
        proof {
            assert forall|k: int| 0 <= k < at implies timestamps@[#[trigger] order@[k] as int]
                <= stamp by {
                if k < at - 1 {
                    assert(precedes(timestamps@, order@[k] as int, order@[at - 1] as int));
                }
            }
            lemma_insert_orders(timestamps@, order@, next as int, at as int);
        }
        order.insert(at, next);
        next += 1;
    }
    proof {
        let chosen = chronological_order_of(timestamps@);
        assert(is_chronological_order(timestamps@, order@));
        assert(is_chronological_order(timestamps@, chosen));
        lemma_chronological_order_unique(timestamps@, order@, chosen);
    }
    order
}

/// The values of `observations` in chronological order: ascending by
/// timestamp, observations of the same timestamp in the order received.
pub fn closing_series<T: Copy>(observations: &Vec<(i64, T)>) -> (series: Vec<T>)
    ensures
        series@ == chronological(observations@),
        series.len() == observations.len(),
        is_chronological_order(
            timestamps_of(observations@),
            chronological_order_of(timestamps_of(observations@)),
        ),
{
    let mut timestamps: Vec<i64> = Vec::new();
    let mut i: usize = 0;
    while i < observations.len()
        invariant
            i <= observations.len(),
            timestamps.len() == i,
            forall|k: int| 0 <= k < i ==> timestamps@[k] == observations@[k].0,
        decreases observations.len() - i,
    {
        timestamps.push(observations[i].0);
        i += 1;
    }
    assert(timestamps@ =~= timestamps_of(observations@));
    let order = chronological_order(&timestamps);
    let mut series: Vec<T> = Vec::new();
    let mut k: usize = 0;
    while k < order.len()
        invariant
            k <= order.len(),
            series.len() == k,
            is_chronological_order(timestamps@, order@),
            timestamps.len() == observations.len(),
            forall|j: int| 0 <= j < k ==> series@[j] == observations@[order@[j] as int].1,
        decreases order.len() - k,
    {
        let position: usize = order[k];
        series.push(observations[position].1);
        k += 1;
    }
    assert(series@ =~= chronological(observations@));
    series
}

} // verus!
