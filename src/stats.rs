use vstd::prelude::*;

verus! {

/// Sum of the first `i` samples.
pub open spec fn sum_upto(s: Seq<u64>, i: int) -> int
    decreases i,
{
    if i <= 0 || i > s.len() {
        0
    } else {
        sum_upto(s, i - 1) + s[i - 1]
    }
}

/// Sum of all samples.
pub open spec fn total(s: Seq<u64>) -> int {
    sum_upto(s, s.len() as int)
}

/// Sum over the first `i` samples `x` of `(n * x - t)` squared.
pub open spec fn sq_dev_upto(s: Seq<u64>, n: int, t: int, i: int) -> int
    decreases i,
{
    if i <= 0 || i > s.len() {
        0
    } else {
        sq_dev_upto(s, n, t, i - 1) + (n * s[i - 1] - t) * (n * s[i - 1] - t)
    }
}

/// `n * n` times the sum of squared deviations from the mean, for `n`
/// samples: the population variance is this divided by `n` cubed.
pub open spec fn scaled_sq_dev(s: Seq<u64>) -> int {
    sq_dev_upto(s, s.len() as int, total(s), s.len() as int)
}

/// Whether `s` is in ascending order.
pub open spec fn is_ascending(s: Seq<u64>) -> bool {
    forall|i: int, j: int| 0 <= i < j < s.len() ==> s[i] <= s[j]
}

/// Twice the median of sorted `t` when its length is even, the median
/// itself when odd: the middle value, or the sum of the two middle values.
pub open spec fn middle_sum(t: Seq<u64>) -> int {
    let h = (t.len() / 2) as int;
    if t.len() % 2 == 0 {
        t[h - 1] + t[h]
    } else {
        t[h] as int
    }
}

/// What `middle_sum` of a sequence of `len` values is divided by.
pub open spec fn middle_den(len: nat) -> int {
    if len % 2 == 0 {
        2
    } else {
        1
    }
}

/// Exact statistics of per-trial counts, as numerators over stated
/// denominators: mean `sum / count`, median `median_num / median_den`, and
/// population variance `scaled_sq_dev / count^3`.
#[derive(Clone, Copy, Debug, PartialEq, Eq)]
pub struct TrialStats {
    pub count: usize,
    pub sum: u128,
    pub median_num: u128,
    pub median_den: u128,
    pub scaled_sq_dev: u128,
}

/// Why statistics could not be computed.
#[derive(Clone, Copy, Debug, PartialEq, Eq)]
pub enum StatsError {
    /// No samples were given.
    Empty,
    /// The scaled squared deviation does not fit in 128 bits.
    Overflow,
}

/// Relies on std's `slice::sort_unstable`: the same values, ascending.
#[verifier::external_body]
fn sort_ascending(v: &mut Vec<u64>)
    ensures
        final(v)@.to_multiset() == old(v)@.to_multiset(),
        is_ascending(final(v)@),
{
    v.sort_unstable();
}

proof fn sq_dev_monotone(s: Seq<u64>, n: int, t: int, i: int, j: int)
    requires
        0 <= i <= j <= s.len(),
    ensures
        sq_dev_upto(s, n, t, i) <= sq_dev_upto(s, n, t, j),
    decreases j - i,
{
    if i < j {
        sq_dev_monotone(s, n, t, i, j - 1);
        let d = n * s[j - 1] - t;
        assert(d * d >= 0) by (nonlinear_arith);
    }
}

/// A copy of `s`.
fn copy_samples(s: &Vec<u64>) -> (r: Vec<u64>)
    ensures
        r@ == s@,
{
    let mut r: Vec<u64> = Vec::with_capacity(s.len());
    let mut i: usize = 0;
    while i < s.len()
        invariant
            i <= s@.len(),
            r@ == s@.subrange(0, i as int),
        decreases s@.len() - i,
    {
        r.push(s[i]);
        i = i + 1;
        assert(r@ =~= s@.subrange(0, i as int));
    }
    assert(r@ =~= s@);
    r
}

/// Sum of the samples, which always fits in 128 bits.
fn sum_samples(s: &Vec<u64>) -> (r: u128)
    ensures
        r == total(s@),
{
    let mut acc: u128 = 0;
    let mut i: usize = 0;
    while i < s.len()
        invariant
            i <= s@.len(),
            acc == sum_upto(s@, i as int),
            acc <= i * (u64::MAX as int),
        decreases s@.len() - i,
    {
        let x = s[i];
        proof {
            assert((i as int) * (u64::MAX as int) + (u64::MAX as int) == (i + 1) * (u64::MAX as int))
                by (nonlinear_arith);
            assert((i + 1) * (u64::MAX as int) <= (usize::MAX as int) * (u64::MAX as int))
                by (nonlinear_arith)
                requires
                    i < usize::MAX,
            ;
        }
        acc = acc + x as u128;
        i = i + 1;
    }
    acc
}

/// Computes mean, median and population variance of per-trial counts
/// exactly. The median is taken over the samples in ascending order: the
/// middle value for an odd count, the mean of the two middle values for an
/// even count.
pub fn calculate_stats(results: &Vec<u64>) -> (r: Result<TrialStats, StatsError>)
    ensures
        (r matches Err(StatsError::Empty)) <==> results@.len() == 0,
        (r matches Err(StatsError::Overflow)) <==> (results@.len() > 0 && scaled_sq_dev(results@)
            > u128::MAX),
        r matches Ok(st) ==> st.count == results@.len() && st.sum == total(results@)
            && st.scaled_sq_dev == scaled_sq_dev(results@) && st.median_den == middle_den(
            results@.len(),
        ) && exists|t: Seq<u64>|
            is_ascending(t) && t.to_multiset() == results@.to_multiset() && st.median_num
                == middle_sum(t),
{
    let len = results.len();
    if len == 0 {
        return Err(StatsError::Empty);
    }
    let sum = sum_samples(results);
    let n = len as u128;
    let ghost s = results@;
    let mut acc: u128 = 0;
    let mut i: usize = 0;
    while i < len
        invariant
            len == s.len(),
            s == results@,
            n == len,
            sum == total(s),
            i <= len,
            acc == sq_dev_upto(s, n as int, sum as int, i as int),
        decreases len - i,
    {
        let x = results[i] as u128;
        proof {
            assert(n * x <= (usize::MAX as int) * (u64::MAX as int)) by (nonlinear_arith)
                requires
                    n <= usize::MAX,
                    x <= u64::MAX,
            ;
        }
        let nx = n * x;
        let diff = if nx >= sum {
            nx - sum
        } else {
            sum - nx
        };
        proof {
            assert(diff * diff == (n * x - sum) * (n * x - sum)) by (nonlinear_arith)
                requires
                    diff == nx - sum || diff == sum - nx,
                    nx == n * x,
            ;
            sq_dev_monotone(s, n as int, sum as int, i + 1, len as int);
        }
        match diff.checked_mul(diff) {
            None => {
                return Err(StatsError::Overflow);
            },
            Some(sq) => {
                match acc.checked_add(sq) {
                    None => {
                        return Err(StatsError::Overflow);
                    },
                    Some(next) => {
                        acc = next;
                    },
                }
            },
        }
        i = i + 1;
    }
    let mut sorted = copy_samples(results);
    sort_ascending(&mut sorted);
    proof {
        sorted@.to_multiset_ensures();
        results@.to_multiset_ensures();
        assert(sorted@.len() == len) by {
            vstd::seq_lib::to_multiset_len(sorted@);
            vstd::seq_lib::to_multiset_len(results@);
        }
    }
    let (median_num, median_den) = if len % 2 == 0 {
        (sorted[len / 2 - 1] as u128 + sorted[len / 2] as u128, 2u128)
    } else {
        (sorted[len / 2] as u128, 1u128)
    };
    Ok(TrialStats { count: len, sum, median_num, median_den, scaled_sq_dev: acc })
}

/// The speedup of `batch` over `individual` as a fraction `(num, den)`:
/// the batch mean `batch.sum / batch.count` divided by the individual mean
/// `individual.sum / individual.count`, with no rounding. Trials of equal
/// length give the same ratio of throughputs. `None` where a term does not
/// fit in 128 bits.
pub fn speedup(individual: &TrialStats, batch: &TrialStats) -> (r: Option<(u128, u128)>)
    ensures
        r is None <==> (batch.sum * individual.count > u128::MAX || individual.sum * batch.count
            > u128::MAX),
        r matches Some(q) ==> q.0 == batch.sum * individual.count && q.1 == individual.sum
            * batch.count,
{
    match (batch.sum.checked_mul(individual.count as u128), individual.sum.checked_mul(
        batch.count as u128,
    )) {
        (Some(num), Some(den)) => Some((num, den)),
        _ => None,
    }
}

} // verus!
