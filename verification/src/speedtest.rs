//! Latency results per resolver service, and their ranking.

use vstd::prelude::*;

verus! {

/// What probing one service's two addresses gave.
///
/// A sample is a round trip in microseconds, absent where the address did
/// not answer. The mean is held in nanoseconds, so that the mean of any two
/// samples is exact.
#[derive(Clone, Debug)]
pub struct SpeedTestResult {
    pub provider: String,
    /// Round trip to the first address, in microseconds.
    pub primary_ping: Option<u32>,
    /// Round trip to the second address, in microseconds.
    pub secondary_ping: Option<u32>,
    /// Mean of the samples that are present, in nanoseconds.
    pub avg_ping: Option<u64>,
}

/// The result type under the name that the background runner knows it by.
pub type AsyncSpeedTestResult = SpeedTestResult;

/// The mathematical value of a `SpeedTestResult`.
pub struct ResultView {
    pub provider: Seq<char>,
    pub primary_ping: Option<u32>,
    pub secondary_ping: Option<u32>,
    pub avg_ping: Option<u64>,
}

impl View for SpeedTestResult {
    type V = ResultView;

    open spec fn view(&self) -> ResultView {
        ResultView {
            provider: self.provider@,
            primary_ping: self.primary_ping,
            secondary_ping: self.secondary_ping,
            avg_ping: self.avg_ping,
        }
    }
}

/// The views of `results`, in order.
pub open spec fn result_views(results: Seq<SpeedTestResult>) -> Seq<ResultView> {
    Seq::new(results.len(), |i: int| results[i]@)
}

/// How many of the two samples are present.
pub open spec fn sample_count(primary: Option<u32>, secondary: Option<u32>) -> int {
    (if primary is Some { 1int } else { 0int }) + (if secondary is Some { 1int } else { 0int })
}

/// The sum of the samples that are present, in microseconds.
pub open spec fn sample_sum(primary: Option<u32>, secondary: Option<u32>) -> int {
    (match primary {
        Some(p) => p as int,
        None => 0int,
    }) + (match secondary {
        Some(s) => s as int,
        None => 0int,
    })
}

/// The mean, in nanoseconds, of the samples that are present; `None` where
/// none is.
pub open spec fn mean_nanos(primary: Option<u32>, secondary: Option<u32>) -> Option<u64> {
    match (primary, secondary) {
        (Some(p), Some(s)) => Some(((p + s) * 500) as u64),
        (Some(p), None) => Some((p * 1000) as u64),
        (None, Some(s)) => Some((s * 1000) as u64),
        (None, None) => None,
    }
}

/// Whether an average `a` ranks strictly before `b`: a smaller one before a
/// larger one, and any that is present before one that is absent.
pub open spec fn ranks_before(a: Option<u64>, b: Option<u64>) -> bool {
    match (a, b) {
        (Some(x), Some(y)) => x < y,
        (Some(_), None) => true,
        (None, _) => false,
    }
}

/// Whether `order` lists the index `v`.
pub open spec fn lists(order: Seq<int>, v: int) -> bool {
    exists|i: int| 0 <= i < order.len() && order[i] == v
}

/// Whether `order` lists each index below `n` exactly once.
pub open spec fn is_permutation(order: Seq<int>, n: int) -> bool {
    &&& order.len() == n
    &&& forall|i: int| 0 <= i < order.len() ==> 0 <= #[trigger] order[i] < n
    &&& forall|i: int, j: int|
        0 <= i < order.len() && 0 <= j < order.len() && i != j ==> order[i] != order[j]
    &&& forall|v: int| 0 <= v < n ==> #[trigger] lists(order, v)
}

/// Whether `output` is `input` put in order by `order`: `output[i]` is
/// `input[order[i]]`, no average ranks before one that stands earlier, and
/// of two results with the same average the one that came first in `input`
/// stands first.
pub open spec fn ranked_by(input: Seq<ResultView>, output: Seq<ResultView>, order: Seq<int>) -> bool {
    &&& is_permutation(order, input.len() as int)
    &&& output.len() == input.len()
    &&& forall|i: int| 0 <= i < output.len() ==> output[i] == input[#[trigger] order[i]]
    &&& forall|i: int, j: int|
        0 <= i < j < output.len() ==> (ranks_before(
            (#[trigger] output[i]).avg_ping,
            (#[trigger] output[j]).avg_ping,
        ) || (output[i].avg_ping == output[j].avg_ping && order[i] < order[j]))
}

/// Whether `output` is the ranking of `input`: the same results, in
/// ascending order of their averages with the absent ones last, and those of
/// equal average in the order they had.
pub open spec fn is_ranking_of(input: Seq<ResultView>, output: Seq<ResultView>) -> bool {
    exists|order: Seq<int>| ranked_by(input, output, order)
}

impl SpeedTestResult {
    /// Whether the average is the mean of the samples that are present.
    pub open spec fn well_formed(&self) -> bool {
        is_well_formed(self@)
    }

    /// The result for `provider` with the samples given. The average is
    /// absent exactly when both samples are; else it is their mean, or the
    /// one sample that is there: an absent sample never counts as zero.
    pub fn measured(provider: String, primary_ping: Option<u32>, secondary_ping: Option<u32>) -> (out:
        SpeedTestResult)
        ensures
            out.well_formed(),
            out.provider == provider,
            out.primary_ping == primary_ping,
            out.secondary_ping == secondary_ping,
            out.avg_ping is None <==> primary_ping is None && secondary_ping is None,
            out.avg_ping matches Some(avg) ==> avg * sample_count(primary_ping, secondary_ping)
                == 1000 * sample_sum(primary_ping, secondary_ping),
    {
        SpeedTestResult {
            provider,
            primary_ping,
            secondary_ping,
            avg_ping: average_ping(primary_ping, secondary_ping),
        }
    }
}

/// The mean, in nanoseconds, of those of the two samples that are present.
pub fn average_ping(primary: Option<u32>, secondary: Option<u32>) -> (avg: Option<u64>)
    ensures
        avg == mean_nanos(primary, secondary),
        avg is None <==> primary is None && secondary is None,
        avg matches Some(a) ==> a * sample_count(primary, secondary) == 1000 * sample_sum(
            primary,
            secondary,
        ),
{
    let avg: Option<u64> = match (primary, secondary) {
        (Some(p), Some(s)) => {
            let sum: u64 = p as u64 + s as u64;
            Some(sum * 500)
        },
        (Some(p), None) => Some(p as u64 * 1000),
        (None, Some(s)) => Some(s as u64 * 1000),
        (None, None) => None,
    };
    proof {
        let n = sample_count(primary, secondary);
        assert(n == 0 || n == 1 || n == 2);
        if let Some(a) = avg {
            assert(a * n == 1000 * sample_sum(primary, secondary)) by {
                if n == 2 {
                    assert(a * 2 == a + a);
                } else {
                    assert(a * 1 == a);
                }
            }
        }
    }
    avg
}

/// Whether the average `a` ranks strictly before `b`.
pub fn ranks_first(a: Option<u64>, b: Option<u64>) -> (r: bool)
    ensures
        r == ranks_before(a, b),
{
    match (a, b) {
        (Some(x), Some(y)) => x < y,
        (Some(_), None) => true,
        (None, _) => false,
    }
}

/// The ranking of `results`: the same results in ascending order of their
/// averages, those without an average last, and those of equal average in
/// the order they came in.
pub fn rank_results(results: Vec<SpeedTestResult>) -> (out: Vec<SpeedTestResult>)
    ensures
        is_ranking_of(result_views(results@), result_views(out@)),
        out@.len() == results@.len(),
        forall|i: int, j: int|
            0 <= i < j < out@.len() ==> !ranks_before(
                (#[trigger] out@[j]).avg_ping,
                (#[trigger] out@[i]).avg_ping,
            ),
        forall|i: int, j: int|
            0 <= i < j < out@.len() && (#[trigger] out@[i]).avg_ping is None ==> (
            #[trigger] out@[j]).avg_ping is None,
{
    let ghost orig = result_views(results@);
    let mut input = results;
    let mut out: Vec<SpeedTestResult> = Vec::new();
    let ghost mut order: Seq<int> = Seq::empty();
    while input.len() > 0
        invariant
            input@.len() + out@.len() == orig.len(),
            result_views(input@) == orig.take(input@.len() as int),
            order.len() == out@.len(),
            forall|i: int| 0 <= i < order.len() ==> input@.len() <= #[trigger] order[i] < orig.len(),
            forall|i: int, j: int|
                0 <= i < order.len() && 0 <= j < order.len() && i != j ==> order[i] != order[j],
            forall|v: int| input@.len() <= v < orig.len() ==> #[trigger] lists(order, v),
            forall|i: int| 0 <= i < out@.len() ==> out@[i]@ == orig[#[trigger] order[i]],
            forall|i: int, j: int|
                0 <= i < j < out@.len() ==> (ranks_before(
                    (#[trigger] out@[i]).avg_ping,
                    (#[trigger] out@[j]).avg_ping,
                ) || (out@[i].avg_ping == out@[j].avg_ping && order[i] < order[j])),
        decreases input@.len(),
    {
        let ghost k: int = input@.len() - 1;
        let ghost before = out@;
        let ghost order_before = order;
        proof {
            assert(result_views(input@)[k] == orig[k]);
            assert(orig.take(k) =~= orig.take(k + 1).take(k));
        }
        let ghost shorter = input@.take(k);
        let item = input.pop().unwrap();
        proof {
            assert(input@ =~= shorter);
            assert(result_views(input@) =~= orig.take(k));
            assert(item@ == orig[k]);
        }
        let mut p: usize = 0;
        while p < out.len() && ranks_first(out[p].avg_ping, item.avg_ping)
            invariant
                p <= out@.len(),
                out@ == before,
                forall|i: int|
                    0 <= i < p ==> ranks_before((#[trigger] out@[i]).avg_ping, item.avg_ping),
            decreases out@.len() - p,
        {
            p += 1;
        }
        out.insert(p, item);
        proof {
            order = order_before.insert(p as int, k);
            let after = out@;
            assert(after.len() == before.len() + 1);
            assert forall|i: int| 0 <= i < after.len() implies (if i < p {
                after[i] == before[i] && order[i] == order_before[i]
            } else if i == p {
                after[i] == item && order[i] == k
            } else {
                after[i] == before[i - 1] && order[i] == order_before[i - 1]
            }) by {}
            assert forall|i: int, j: int| 0 <= i < j < after.len() implies (ranks_before(
                (#[trigger] after[i]).avg_ping,
                (#[trigger] after[j]).avg_ping,
            ) || (after[i].avg_ping == after[j].avg_ping && order[i] < order[j])) by {
                if j == p {
                    assert(after[i] == before[i]);
                } else if i == p {
                    assert(after[j] == before[j - 1]);
                    if p < j - 1 {
                        assert(ranks_before(before[p as int].avg_ping, before[j - 1].avg_ping) || (
                        before[p as int].avg_ping == before[j - 1].avg_ping));
                    }
                    assert(order[j] == order_before[j - 1]);
                } else if i < p && j < p {
                    assert(after[i] == before[i] && after[j] == before[j]);
                } else if i < p && j > p {
                    assert(after[i] == before[i] && after[j] == before[j - 1]);
                } else {
                    assert(after[i] == before[i - 1] && after[j] == before[j - 1]);
                }
            }
            assert forall|v: int| k <= v < orig.len() implies #[trigger] lists(order, v) by {
                if v == k {
                    assert(order[p as int] == k);
                } else {
                    assert(lists(order_before, v));
                    let i = choose|i: int| 0 <= i < order_before.len() && order_before[i] == v;
                    if i < p {
                        assert(order[i] == v);
                    } else {
                        assert(order[i + 1] == v);
                    }
                }
            }
            assert forall|i: int, j: int|
                0 <= i < order.len() && 0 <= j < order.len() && i != j implies order[i]
                != order[j] by {
                let a = if i < p { i } else { i - 1 };
                let b = if j < p { j } else { j - 1 };
                if i != p && j != p {
                    assert(order[i] == order_before[a] && order[j] == order_before[b]);
                } else if i == p {
                    assert(order[j] == order_before[b]);
                } else {
                    assert(order[i] == order_before[a]);
                }
            }
        }
    }
    proof {
        assert(ranked_by(orig, result_views(out@), order));
        assert forall|i: int, j: int| 0 <= i < j < out@.len() implies !ranks_before(
            (#[trigger] out@[j]).avg_ping,
            (#[trigger] out@[i]).avg_ping,
        ) by {}
    }
    out
}

/// In a ranking no average ranks before one that stands earlier: those that
/// are present ascend, and behind one that is absent all are absent.
pub proof fn ranking_is_in_order(input: Seq<ResultView>, output: Seq<ResultView>)
    requires
        is_ranking_of(input, output),
    ensures
        forall|i: int, j: int|
            0 <= i < j < output.len() ==> !ranks_before(
                (#[trigger] output[j]).avg_ping,
                (#[trigger] output[i]).avg_ping,
            ),
        forall|i: int, j: int|
            0 <= i < j < output.len() && (#[trigger] output[i]).avg_ping is None ==> (
            #[trigger] output[j]).avg_ping is None,
        forall|i: int, j: int|
            0 <= i < j < output.len() && (#[trigger] output[i]).avg_ping is Some && (
            #[trigger] output[j]).avg_ping is Some ==> output[i].avg_ping->0
                <= output[j].avg_ping->0,
{
    let order = choose|order: Seq<int>| ranked_by(input, output, order);
    assert forall|i: int, j: int| 0 <= i < j < output.len() implies !ranks_before(
        (#[trigger] output[j]).avg_ping,
        (#[trigger] output[i]).avg_ping,
    ) by {
        assert(ranks_before(output[i].avg_ping, output[j].avg_ping) || output[i].avg_ping
            == output[j].avg_ping);
    }
}

/// Whether the result at index `x` of `input` comes before the one at
/// index `y` in the ranking: by its average, and by its place where the
/// averages are the same.
pub open spec fn comes_first(input: Seq<ResultView>, x: int, y: int) -> bool {
    ranks_before(input[x].avg_ping, input[y].avg_ping) || (input[x].avg_ping == input[y].avg_ping
        && x < y)
}

proof fn orders_agree(
    input: Seq<ResultView>,
    a: Seq<ResultView>,
    b: Seq<ResultView>,
    order_a: Seq<int>,
    order_b: Seq<int>,
    n: int,
)
    requires
        ranked_by(input, a, order_a),
        ranked_by(input, b, order_b),
        0 <= n <= input.len(),
    ensures
        forall|i: int| 0 <= i < n ==> order_a[i] == order_b[i],
    decreases n,
{
    if n > 0 {
        orders_agree(input, a, b, order_a, order_b, n - 1);
        let m = n - 1;
        let x = order_a[m];
        let y = order_b[m];
        if x != y {
            assert(lists(order_b, x));
            let p = choose|p: int| 0 <= p < order_b.len() && order_b[p] == x;
            assert(lists(order_a, y));
            let q = choose|q: int| 0 <= q < order_a.len() && order_a[q] == y;
            if p < m {
                assert(order_a[p] == order_b[p]);
                assert(false);
            }
            if q < m {
                assert(order_a[q] == order_b[q]);
                assert(false);
            }
            assert(m < p && m < q);
            assert(b[m] == input[y] && b[p] == input[x]);
            assert(a[m] == input[x] && a[q] == input[y]);
            assert(comes_first(input, y, x)) by {
                assert(ranks_before(b[m].avg_ping, b[p].avg_ping) || (b[m].avg_ping
                    == b[p].avg_ping && order_b[m] < order_b[p]));
            }
            assert(comes_first(input, x, y)) by {
                assert(ranks_before(a[m].avg_ping, a[q].avg_ping) || (a[m].avg_ping
                    == a[q].avg_ping && order_a[m] < order_a[q]));
            }
            assert(false);
        }
    }
}

/// A list of results has one ranking only.
pub proof fn ranking_is_unique(input: Seq<ResultView>, a: Seq<ResultView>, b: Seq<ResultView>)
    requires
        is_ranking_of(input, a),
        is_ranking_of(input, b),
    ensures
        a == b,
{
    let order_a = choose|order: Seq<int>| ranked_by(input, a, order);
    let order_b = choose|order: Seq<int>| ranked_by(input, b, order);
    orders_agree(input, a, b, order_a, order_b, input.len() as int);
    assert forall|i: int| 0 <= i < a.len() implies a[i] == b[i] by {
        assert(a[i] == input[order_a[i]]);
        assert(b[i] == input[order_b[i]]);
    }
    assert(a =~= b);
}

/// Whether the average of `r` is the mean of its samples that are present.
pub open spec fn is_well_formed(r: ResultView) -> bool {
    r.avg_ping == mean_nanos(r.primary_ping, r.secondary_ping)
}

/// Whether every one of `results` holds the mean of its samples.
pub open spec fn all_well_formed(results: Seq<ResultView>) -> bool {
    forall|i: int| 0 <= i < results.len() ==> is_well_formed(#[trigger] results[i])
}

/// A result that holds the mean of its samples has no average exactly when
/// it has no sample. Else its average is the mean of the samples that are
/// there: the one sample, or half the sum of the two. A sample that is
/// absent never counts as zero.
pub proof fn well_formed_average(r: ResultView)
    requires
        is_well_formed(r),
    ensures
        r.avg_ping is None <==> r.primary_ping is None && r.secondary_ping is None,
        r.avg_ping matches Some(avg) ==> avg * sample_count(r.primary_ping, r.secondary_ping)
            == 1000 * sample_sum(r.primary_ping, r.secondary_ping),
        r.primary_ping is Some && r.secondary_ping is Some ==> r.avg_ping == Some(
            ((r.primary_ping->0 + r.secondary_ping->0) * 500) as u64,
        ),
        r.primary_ping is Some && r.secondary_ping is None ==> r.avg_ping == Some(
            (r.primary_ping->0 * 1000) as u64,
        ),
        r.primary_ping is None && r.secondary_ping is Some ==> r.avg_ping == Some(
            (r.secondary_ping->0 * 1000) as u64,
        ),
{
    let n = sample_count(r.primary_ping, r.secondary_ping);
    if let Some(avg) = r.avg_ping {
        if n == 2 {
            assert(avg * 2 == avg + avg);
        } else {
            assert(avg * 1 == avg);
        }
    }
}

/// The ranking of results that hold the means of their samples holds
/// results that do.
pub proof fn ranking_keeps_well_formed(input: Seq<ResultView>, output: Seq<ResultView>)
    requires
        is_ranking_of(input, output),
        all_well_formed(input),
    ensures
        all_well_formed(output),
{
    let order = choose|order: Seq<int>| ranked_by(input, output, order);
    assert forall|i: int| 0 <= i < output.len() implies is_well_formed(#[trigger] output[i]) by {
        assert(output[i] == input[order[i]]);
        assert(0 <= order[i] < input.len());
    }
}

impl Default for SpeedTestResult {
    /// A result without a name and without samples.
    fn default() -> (out: SpeedTestResult)
        ensures
            out@ == (ResultView {
                provider: Seq::<char>::empty(),
                primary_ping: None,
                secondary_ping: None,
                avg_ping: None,
            }),
            out.well_formed(),
    {
        SpeedTestResult {
            provider: String::new(),
            primary_ping: None,
            secondary_ping: None,
            avg_ping: None,
        }
    }
}

} // verus!
