use bls_bench::bench::{run_batch_verification_benchmark, run_verification_benchmark, BenchError};
use bls_bench::pool::{generate_test_attestations, SignedAttestation};
use rand::rngs::StdRng;
use rand::SeedableRng;
use std::time::Instant;

fn make_pool(count: usize, seed: u64) -> Vec<SignedAttestation> {
    let mut rng = StdRng::seed_from_u64(seed);
    generate_test_attestations(&mut rng, count)
}

#[test]
fn individual_run_counts_and_respects_deadline() {
    let pool = make_pool(3, 21);
    let start = Instant::now();
    let count = run_verification_benchmark(&pool, 1).expect("all valid");
    let elapsed = start.elapsed().as_secs_f64();
    assert!(count >= 1);
    assert!(elapsed >= 1.0);
    assert!(elapsed < 5.0);
}

#[test]
fn individual_run_cycles_through_small_pool() {
    let pool = make_pool(2, 22);
    let count = run_verification_benchmark(&pool, 1).expect("all valid");
    assert!(count > pool.len());
}

#[test]
fn zero_duration_does_no_work() {
    let pool = make_pool(1, 23);
    assert_eq!(run_verification_benchmark(&pool, 0), Ok(0));
    assert_eq!(run_batch_verification_benchmark(&pool, 0, 10), Ok(0));
}

#[test]
fn batch_run_counts_whole_batches() {
    let pool = make_pool(3, 24);
    let start = Instant::now();
    let total = run_batch_verification_benchmark(&pool, 1, 10).expect("all valid");
    assert!(start.elapsed().as_secs_f64() < 6.0);
    assert!(total >= 10);
    assert_eq!(total % 10, 0);
}

#[test]
fn empty_batch_size_counts_nothing() {
    let pool = make_pool(1, 25);
    assert_eq!(run_batch_verification_benchmark(&pool, 1, 0), Ok(0));
}

#[test]
fn failed_verification_ends_runs() {
    let mut pool = make_pool(2, 26);
    pool[1] = SignedAttestation {
        data: pool[1].data,
        signature: pool[0].signature,
        public_key: pool[1].public_key,
    };
    assert_eq!(
        run_verification_benchmark(&pool, 2),
        Err(BenchError::VerificationFailed { index: 1 })
    );
    assert_eq!(
        run_batch_verification_benchmark(&pool, 2, 5),
        Err(BenchError::VerificationFailed { index: 1 })
    );
}
