use crate::pool::{all_accepted_from, first_bad_from, first_rejected, verify_one, SignedAttestation};
use std::time::{Duration, Instant};
use vstd::prelude::*;

verus! {

#[verifier::external_type_specification]
#[verifier::external_body]
pub struct ExInstant(Instant);

/// Relies on std's `Instant::now`: a reading of the monotonic clock.
#[verifier::external_body]
fn clock_now() -> (r: Instant) {
    Instant::now()
}

/// The span of `secs` whole seconds.
pub uninterp spec fn duration_of_secs(secs: u64) -> Duration;

/// The instant `d` after `t`, or `None` where it cannot be represented.
pub uninterp spec fn instant_after(t: Instant, d: Duration) -> Option<Instant>;

/// Whether instant `a` is earlier than instant `b`.
pub uninterp spec fn instant_earlier(a: Instant, b: Instant) -> bool;

/// Relies on std's `Duration::from_secs`, which depends on `secs` alone.
#[verifier::external_body]
fn seconds(secs: u64) -> (r: Duration)
    ensures
        r == duration_of_secs(secs),
{
    Duration::from_secs(secs)
}

/// Relies on std's `Instant::checked_add`, which depends on its arguments
/// alone and gives `None` where the sum cannot be represented.
#[verifier::external_body]
fn add_duration(t: Instant, d: Duration) -> (r: Option<Instant>)
    ensures
        r == instant_after(t, d),
{
    t.checked_add(d)
}

/// Relies on std's `<` on `Instant`, which depends on its arguments alone.
#[verifier::external_body]
fn is_before(a: &Instant, b: &Instant) -> (r: bool)
    ensures
        r == instant_earlier(*a, *b),
{
    *a < *b
}

/// Why a benchmark run stopped before its deadline.
#[derive(Clone, Copy, Debug, PartialEq, Eq)]
pub enum BenchError {
    /// The signature at this index of the pool did not verify.
    VerificationFailed { index: usize },
}

/// Whether every element of the pool is accepted.
pub open spec fn pool_valid(pool: Seq<SignedAttestation>) -> bool {
    forall|i: int| 0 <= i < pool.len() ==> #[trigger] pool[i].accepted()
}

/// The pool indices that a run visits, in order, while completing `count`
/// verifications over a pool of `len` elements.
pub open spec fn visit_order(len: nat, count: nat) -> Seq<int> {
    Seq::new(count, |k: int| k % (len as int))
}

/// Whether the first `count` visits of a run over `pool` are all accepted.
pub open spec fn visits_accepted(pool: Seq<SignedAttestation>, count: nat) -> bool {
    forall|k: int|
        0 <= k < count ==> #[trigger] pool[visit_order(pool.len(), count)[k]].accepted()
}

/// Whether a deadline check that read the clock at `now` finds `deadline`
/// still ahead; a deadline that the clock cannot represent is never reached.
pub open spec fn ahead_of(now: Instant, deadline: Option<Instant>) -> bool {
    match deadline {
        None => true,
        Some(d) => instant_earlier(now, d),
    }
}

/// Whether each answer was given by a check at the matching clock reading.
pub open spec fn answers_match(checks: Seq<bool>, readings: Seq<Instant>, deadline: Option<Instant>) -> bool {
    checks.len() == readings.len() && forall|i: int|
        0 <= i < checks.len() ==> #[trigger] checks[i] == ahead_of(readings[i], deadline)
}

/// Whether `checks` are the answers of deadline checks at some clock readings,
/// against the deadline `duration_seconds` after some first reading.
pub open spec fn clock_answers(checks: Seq<bool>, duration_seconds: u64) -> bool {
    exists|start: Instant, readings: Seq<Instant>|
        #[trigger] answers_match(
            checks,
            readings,
            instant_after(start, duration_of_secs(duration_seconds)),
        )
}

/// Reads the clock and fixes the deadline `duration_seconds` after that
/// reading; `None` where it lies beyond what the clock can represent.
fn deadline_after(duration_seconds: u64) -> (r: (Instant, Option<Instant>))
    ensures
        r.1 == instant_after(r.0, duration_of_secs(duration_seconds)),
{
    let start = clock_now();
    let deadline = add_duration(start, seconds(duration_seconds));
    (start, deadline)
}

/// Reads the clock and tells whether the deadline is still ahead of it.
fn before_deadline(deadline: &Option<Instant>) -> (r: (Instant, bool))
    ensures
        r.1 == ahead_of(r.0, *deadline),
{
    let now = clock_now();
    match deadline {
        None => (now, true),
        Some(d) => {
            let ahead = is_before(&now, d);
            (now, ahead)
        },
    }
}

/// What one deadline check leads to in a run of single verifications that
/// has completed `count`: `Ok(None)` to stop (the check said the deadline
/// has passed, or the count cannot grow); otherwise the element at
/// `count % len` is verified, giving the new count or the failing index.
pub open spec fn individual_next(pool: Seq<SignedAttestation>, count: usize, before: bool) -> Result<
    Option<usize>,
    BenchError,
> {
    let index = count as int % pool.len() as int;
    if !before || count == usize::MAX {
        Ok(None)
    } else if pool[index].accepted() {
        Ok(Some((count + 1) as usize))
    } else {
        Err(BenchError::VerificationFailed { index: index as usize })
    }
}

/// The result of a run of single verifications from `count` on, given the
/// answers of its successive deadline checks.
pub open spec fn individual_run(pool: Seq<SignedAttestation>, count: usize, checks: Seq<bool>) -> Result<
    usize,
    BenchError,
>
    decreases checks.len(),
{
    if checks.len() == 0 {
        Ok(count)
    } else {
        match individual_next(pool, count, checks[0]) {
            Ok(None) => Ok(count),
            Ok(Some(c)) => individual_run(pool, c, checks.drop_first()),
            Err(e) => Err(e),
        }
    }
}

/// What one deadline check leads to in a run of simulated batches of `b`
/// that has completed `total`: `Ok(None)` to stop (the check said the
/// deadline has passed, or the total would pass `usize::MAX`); otherwise the
/// `b` elements from `total` on are verified, giving `total + b`, or the
/// index of the first that fails.
pub open spec fn batch_next(pool: Seq<SignedAttestation>, total: usize, b: usize, before: bool) -> Result<
    Option<usize>,
    BenchError,
> {
    let k = first_bad_from(pool, total as int, 0, b as int);
    if !before || total > usize::MAX - b {
        Ok(None)
    } else if k == b {
        Ok(Some((total + b) as usize))
    } else {
        Err(BenchError::VerificationFailed { index: ((total + k) % pool.len() as int) as usize })
    }
}

/// The result of a run of simulated batches of `b` from `total` on, given
/// the answers of its successive deadline checks.
pub open spec fn batch_run(pool: Seq<SignedAttestation>, total: usize, b: usize, checks: Seq<bool>) -> Result<
    usize,
    BenchError,
>
    decreases checks.len(),
{
    if checks.len() == 0 {
        Ok(total)
    } else {
        match batch_next(pool, total, b, checks[0]) {
            Ok(None) => Ok(total),
            Ok(Some(t)) => batch_run(pool, t, b, checks.drop_first()),
            Err(e) => Err(e),
        }
    }
}

/// Whether all answers but the last said the deadline was still ahead.
pub open spec fn ahead_until_last(checks: Seq<bool>) -> bool {
    checks.len() > 0 && forall|i: int| 0 <= i < checks.len() - 1 ==> #[trigger] checks[i]
}

/// Takes one step of a run of single verifications that has completed
/// `count`, given whether the deadline is still ahead.
pub fn individual_step(pool: &Vec<SignedAttestation>, count: usize, before_deadline: bool) -> (r:
    Result<Option<usize>, BenchError>)
    requires
        pool@.len() > 0,
    ensures
        r == individual_next(pool@, count, before_deadline),
{
    if !before_deadline || count == usize::MAX {
        return Ok(None);
    }
    let index = count % pool.len();
    if verify_one(&pool[index]) {
        Ok(Some(count + 1))
    } else {
        Err(BenchError::VerificationFailed { index })
    }
}

/// Takes one step of a run of simulated batches of `batch_size` that has
/// completed `total`, given whether the deadline is still ahead.
pub fn batch_step(pool: &Vec<SignedAttestation>, total: usize, batch_size: usize, before_deadline: bool) -> (r:
    Result<Option<usize>, BenchError>)
    requires
        pool@.len() > 0,
    ensures
        r == batch_next(pool@, total, batch_size, before_deadline),
        r matches Ok(Some(t)) ==> all_accepted_from(pool@, total as int, batch_size as int),
        r matches Err(BenchError::VerificationFailed { index }) ==> index < pool@.len()
            && !pool@[index as int].accepted(),
{
    if !before_deadline || total > usize::MAX - batch_size {
        return Ok(None);
    }
    match first_rejected(pool, total, batch_size) {
        Some(k) => Err(BenchError::VerificationFailed { index: (total + k) % pool.len() }),
        None => Ok(Some(total + batch_size)),
    }
}

/// Verifies `pool[count % len]` and counts it, over and over, until a
/// check of the clock finds that `duration_seconds` have passed since the
/// start (or the count reaches `usize::MAX`). The deadline is fixed once,
/// and the last verification may end after it. The result is what the steps
/// give for the answers of the deadline checks: all of them but the last
/// found the deadline ahead. A failed verification ends the run with the
/// index of the element that failed.
pub fn run_verification_benchmark(attestations: &Vec<SignedAttestation>, duration_seconds: u64) -> (r:
    Result<usize, BenchError>)
    requires
        attestations@.len() > 0,
    ensures
        exists|checks: Seq<bool>|
            ahead_until_last(checks) && clock_answers(checks, duration_seconds) && r == individual_run(attestations@, 0, checks),
        r matches Ok(c) ==> visits_accepted(attestations@, c as nat),
        r matches Err(BenchError::VerificationFailed { index }) ==> index < attestations@.len()
            && !attestations@[index as int].accepted(),
        pool_valid(attestations@) ==> r is Ok,
{
    let len = attestations.len();
    let (start, deadline) = deadline_after(duration_seconds);
    let ghost mut readings: Seq<Instant> = Seq::empty();
    let mut count: usize = 0;
    let ghost mut checks: Seq<bool> = Seq::empty();
    proof {
        assert forall|rest: Seq<bool>|
            individual_run(attestations@, 0, checks + rest) == individual_run(
                attestations@,
                count,
                rest,
            ) by {
            assert(checks + rest =~= rest);
        }
    }
    loop
        invariant
            len == attestations@.len(),
            len > 0,
            forall|k: int| 0 <= k < count ==> #[trigger] attestations@[k % (len as int)].accepted(),
            forall|i: int| 0 <= i < checks.len() ==> #[trigger] checks[i],
            deadline == instant_after(start, duration_of_secs(duration_seconds)),
            answers_match(checks, readings, deadline),
            forall|rest: Seq<bool>|
                individual_run(attestations@, 0, checks + rest) == #[trigger] individual_run(
                    attestations@,
                    count,
                    rest,
                ),
        decreases usize::MAX - count,
    {
        let (now, before) = before_deadline(&deadline);
        let step = individual_step(attestations, count, before);
        proof {
            let one = seq![before];
            assert(one.drop_first() =~= Seq::<bool>::empty());
            assert(checks + one =~= checks.push(before));
            assert(individual_run(attestations@, 0, checks + one) == individual_run(
                attestations@,
                count,
                one,
            ));
            assert forall|rest: Seq<bool>|
                individual_run(attestations@, count, one + rest) == match step {
                    Ok(Some(c)) => individual_run(attestations@, c, rest),
                    Ok(None) => Ok(count),
                    Err(e) => Err(e),
                } by {
                assert((one + rest).drop_first() =~= rest);
                assert((one + rest)[0] == before);
            }
            assert(answers_match(checks.push(before), readings.push(now), deadline));
            if step is Err || step == Ok::<Option<usize>, BenchError>(None) {
                assert(ahead_until_last(checks.push(before)));
                assert(answers_match(
                    checks.push(before),
                    readings.push(now),
                    instant_after(start, duration_of_secs(duration_seconds)),
                ));
                assert(clock_answers(checks.push(before), duration_seconds));
            }
        }
        match step {
            Ok(None) => {
                return Ok(count);
            },
            Ok(Some(c)) => {
                proof {
                    assert forall|rest: Seq<bool>|
                        individual_run(attestations@, 0, checks.push(before) + rest)
                            == #[trigger] individual_run(attestations@, c, rest) by {
                        assert(checks.push(before) + rest =~= checks + (seq![before] + rest));
                    }
                    checks = checks.push(before);
                    readings = readings.push(now);
                }
                count = c;
            },
            Err(e) => {
                return Err(e);
            },
        }
    }
}

/// Runs simulated batches of `batch_size` verifications, each starting
/// where the last one ended and cycling through the pool, until a check of
/// the clock finds that `duration_seconds` have passed since the start (or
/// the total would pass `usize::MAX`), and returns the number of
/// verifications in completed batches. The deadline is fixed once, and the
/// last batch may end after it. The result is what the steps give for the
/// answers of the deadline checks: all of them but the last found the
/// deadline ahead. A failed verification ends the run with the index of the
/// element that failed. An empty batch size does no work and counts nothing.
pub fn run_batch_verification_benchmark(
    attestations: &Vec<SignedAttestation>,
    duration_seconds: u64,
    batch_size: usize,
) -> (r: Result<usize, BenchError>)
    requires
        attestations@.len() > 0,
    ensures
        batch_size == 0 ==> r == Ok::<usize, BenchError>(0),
        batch_size > 0 ==> exists|checks: Seq<bool>|
            ahead_until_last(checks) && clock_answers(checks, duration_seconds) && r == batch_run(attestations@, 0, batch_size, checks),
        r matches Ok(t) ==> visits_accepted(attestations@, t as nat) && (batch_size > 0 ==> t
            % batch_size == 0),
        r matches Err(BenchError::VerificationFailed { index }) ==> index < attestations@.len()
            && !attestations@[index as int].accepted(),
        pool_valid(attestations@) ==> r is Ok,
{
    if batch_size == 0 {
        return Ok(0);
    }
    let len = attestations.len();
    let (start, deadline) = deadline_after(duration_seconds);
    let ghost mut readings: Seq<Instant> = Seq::empty();
    let mut total: usize = 0;
    let ghost mut checks: Seq<bool> = Seq::empty();
    proof {
        assert forall|rest: Seq<bool>|
            batch_run(attestations@, 0, batch_size, checks + rest) == batch_run(
                attestations@,
                total,
                batch_size,
                rest,
            ) by {
            assert(checks + rest =~= rest);
        }
    }
    loop
        invariant
            len == attestations@.len(),
            len > 0,
            batch_size > 0,
            total % batch_size == 0,
            forall|k: int| 0 <= k < total ==> #[trigger] attestations@[k % (len as int)].accepted(),
            forall|i: int| 0 <= i < checks.len() ==> #[trigger] checks[i],
            deadline == instant_after(start, duration_of_secs(duration_seconds)),
            answers_match(checks, readings, deadline),
            forall|rest: Seq<bool>|
                batch_run(attestations@, 0, batch_size, checks + rest) == #[trigger] batch_run(
                    attestations@,
                    total,
                    batch_size,
                    rest,
                ),
        decreases usize::MAX - total,
    {
        let (now, before) = before_deadline(&deadline);
        let step = batch_step(attestations, total, batch_size, before);
        proof {
            let one = seq![before];
            assert(one.drop_first() =~= Seq::<bool>::empty());
            assert(checks + one =~= checks.push(before));
            assert(batch_run(attestations@, 0, batch_size, checks + one) == batch_run(
                attestations@,
                total,
                batch_size,
                one,
            ));
            assert forall|rest: Seq<bool>|
                batch_run(attestations@, total, batch_size, one + rest) == match step {
                    Ok(Some(t)) => batch_run(attestations@, t, batch_size, rest),
                    Ok(None) => Ok(total),
                    Err(e) => Err(e),
                } by {
                assert((one + rest).drop_first() =~= rest);
                assert((one + rest)[0] == before);
            }
            assert(answers_match(checks.push(before), readings.push(now), deadline));
            if step is Err || step == Ok::<Option<usize>, BenchError>(None) {
                assert(ahead_until_last(checks.push(before)));
                assert(answers_match(
                    checks.push(before),
                    readings.push(now),
                    instant_after(start, duration_of_secs(duration_seconds)),
                ));
                assert(clock_answers(checks.push(before), duration_seconds));
            }
        }
        match step {
            Ok(None) => {
                proof {
                    assert forall|k: int| 0 <= k < total implies #[trigger] attestations@[visit_order(
                        len as nat,
                        total as nat,
                    )[k]].accepted() by {
                        assert(attestations@[k % (len as int)].accepted());
                    }
                }
                return Ok(total);
            },
            Ok(Some(t)) => {
                proof {
                    assert forall|rest: Seq<bool>|
                        batch_run(attestations@, 0, batch_size, checks.push(before) + rest)
                            == #[trigger] batch_run(attestations@, t, batch_size, rest) by {
                        assert(checks.push(before) + rest =~= checks + (seq![before] + rest));
                    }
                    checks = checks.push(before);
                    readings = readings.push(now);
                    assert forall|j: int| 0 <= j < t implies #[trigger] attestations@[j
                        % (len as int)].accepted() by {
                        if j >= total {
                            let k = j - total;
                            assert(attestations@[(total + k) % (len as int)].accepted());
                        }
                    }
                    vstd::arithmetic::div_mod::lemma_add_mod_noop(
                        total as int,
                        batch_size as int,
                        batch_size as int,
                    );
                    vstd::arithmetic::div_mod::lemma_mod_self_0(batch_size as int);
                    vstd::arithmetic::div_mod::lemma_small_mod(0, batch_size as nat);
                }
                total = t;
            },
            Err(e) => {
                return Err(e);
            },
        }
    }
}

/// Batches of one element run exactly as single verifications: under the
/// same answers of the deadline checks, both runs give the same result.
pub proof fn single_batches_run_as_singles(pool: Seq<SignedAttestation>, count: usize, checks: Seq<bool>)
    requires
        pool.len() > 0,
    ensures
        batch_run(pool, count, 1, checks) == individual_run(pool, count, checks),
    decreases checks.len(),
{
    if checks.len() > 0 {
        assert(first_bad_from(pool, count as int, 1, 1) == 1);
        assert(count as int + 0 == count as int);
        assert(batch_next(pool, count, 1, checks[0]) == individual_next(pool, count, checks[0]));
        match individual_next(pool, count, checks[0]) {
            Ok(Some(c)) => {
                single_batches_run_as_singles(pool, c, checks.drop_first());
            },
            _ => {},
        }
    }
}

/// Over a valid pool, a run whose deadline checks found the deadline ahead
/// until the last one completes exactly one verification per check that
/// found it ahead: at least one where the first check did, and none begun
/// after the deadline was seen to have passed.
pub proof fn individual_run_counts_checks_ahead(pool: Seq<SignedAttestation>, count: usize, checks: Seq<bool>)
    requires
        pool.len() > 0,
        pool_valid(pool),
        ahead_until_last(checks),
        !checks.last(),
        count + checks.len() - 1 <= usize::MAX,
    ensures
        individual_run(pool, count, checks) == Ok::<usize, BenchError>(
            (count + checks.len() - 1) as usize,
        ),
    decreases checks.len(),
{
    if checks.len() > 1 {
        assert(checks[0]);
        vstd::arithmetic::div_mod::lemma_mod_bound(count as int, pool.len() as int);
        let rest = checks.drop_first();
        assert forall|i: int| 0 <= i < rest.len() - 1 implies #[trigger] rest[i] by {
            assert(checks[i + 1]);
        }
        individual_run_counts_checks_ahead(pool, (count + 1) as usize, rest);
    }
}

proof fn valid_pool_has_no_bad(pool: Seq<SignedAttestation>, start: int, k: int, n: int)
    requires
        pool.len() > 0,
        pool_valid(pool),
    ensures
        first_bad_from(pool, start, k, n) == n || k > n,
    decreases n - k,
{
    if k < n {
        vstd::arithmetic::div_mod::lemma_mod_bound(start + k, pool.len() as int);
        valid_pool_has_no_bad(pool, start, k + 1, n);
    }
}

/// Over a valid pool, a batch run whose deadline checks found the deadline
/// ahead until the last one completes exactly one batch per check that
/// found it ahead, each adding `b`: at least one batch where the first check
/// did, and none begun after the deadline was seen to have passed.
pub proof fn batch_run_counts_checks_ahead(
    pool: Seq<SignedAttestation>,
    total: usize,
    b: usize,
    checks: Seq<bool>,
)
    requires
        pool.len() > 0,
        pool_valid(pool),
        b > 0,
        ahead_until_last(checks),
        !checks.last(),
        total + (checks.len() - 1) * b <= usize::MAX,
    ensures
        batch_run(pool, total, b, checks) == Ok::<usize, BenchError>(
            (total + (checks.len() - 1) * b) as usize,
        ),
    decreases checks.len(),
{
    if checks.len() > 1 {
        let m = checks.len() - 1;
        assert(checks[0]);
        assert(total + m * b == total + b + (m - 1) * b) by (nonlinear_arith);
        assert((m - 1) * b >= 0) by (nonlinear_arith)
            requires
                m >= 1,
                b > 0,
        ;
        valid_pool_has_no_bad(pool, total as int, 0, b as int);
        let rest = checks.drop_first();
        assert forall|i: int| 0 <= i < rest.len() - 1 implies #[trigger] rest[i] by {
            assert(checks[i + 1]);
        }
        batch_run_counts_checks_ahead(pool, (total + b) as usize, b, rest);
    } else {
        assert((checks.len() - 1) * b == 0);
    }
}

/// Once a run has completed more verifications than the pool holds, it has
/// come back to the first element: every visit lies in the pool, and both
/// the first visit and the one right after a full pass are to index 0.
pub proof fn visits_wrap_around(len: nat, count: nat)
    requires
        len > 0,
        count > len,
    ensures
        forall|k: int| 0 <= k < count ==> 0 <= #[trigger] visit_order(len, count)[k] < len,
        visit_order(len, count)[0] == 0,
        visit_order(len, count)[len as int] == 0,
{
    vstd::arithmetic::div_mod::lemma_mod_self_0(len as int);
    assert forall|k: int| 0 <= k < count implies 0 <= #[trigger] visit_order(len, count)[k] < len by {
        vstd::arithmetic::div_mod::lemma_mod_bound(k, len as int);
    }
}

} // verus!
