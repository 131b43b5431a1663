use bls_bench::bench::{batch_step, individual_step, BenchError};
use bls_bench::pool::{generate_test_attestations, SignedAttestation};
use rand::rngs::StdRng;
use rand::SeedableRng;

fn make_pool(count: usize, seed: u64) -> Vec<SignedAttestation> {
    let mut rng = StdRng::seed_from_u64(seed);
    generate_test_attestations(&mut rng, count)
}

fn spoil(pool: &mut Vec<SignedAttestation>, i: usize, j: usize) {
    pool[i] = SignedAttestation {
        data: pool[i].data,
        signature: pool[j].signature,
        public_key: pool[i].public_key,
    };
}

#[test]
fn individual_step_stops_once_deadline_passed() {
    let pool = make_pool(3, 31);
    assert_eq!(individual_step(&pool, 7, false), Ok(None));
    assert_eq!(individual_step(&pool, usize::MAX, true), Ok(None));
}

#[test]
fn individual_step_counts_one_verification() {
    let pool = make_pool(3, 32);
    assert_eq!(individual_step(&pool, 0, true), Ok(Some(1)));
    assert_eq!(individual_step(&pool, 4, true), Ok(Some(5)));
}

#[test]
fn individual_step_reports_cycled_index() {
    let mut pool = make_pool(3, 33);
    spoil(&mut pool, 2, 0);
    assert_eq!(individual_step(&pool, 5, true), Err(BenchError::VerificationFailed { index: 2 }));
    assert_eq!(individual_step(&pool, 4, true), Ok(Some(5)));
}

#[test]
fn batch_step_adds_whole_batch() {
    let pool = make_pool(3, 34);
    assert_eq!(batch_step(&pool, 0, 4, true), Ok(Some(4)));
    assert_eq!(batch_step(&pool, 8, 4, true), Ok(Some(12)));
    assert_eq!(batch_step(&pool, 8, 4, false), Ok(None));
    assert_eq!(batch_step(&pool, usize::MAX - 2, 4, true), Ok(None));
}

#[test]
fn batch_step_reports_first_failing_index() {
    let mut pool = make_pool(3, 35);
    spoil(&mut pool, 0, 1);
    assert_eq!(batch_step(&pool, 4, 4, true), Err(BenchError::VerificationFailed { index: 0 }));
    assert_eq!(batch_step(&pool, 1, 2, true), Ok(Some(3)));
}

#[test]
fn batch_of_one_steps_like_single_verification() {
    let mut pool = make_pool(2, 36);
    spoil(&mut pool, 1, 0);
    for count in 0..4 {
        assert_eq!(batch_step(&pool, count, 1, true), individual_step(&pool, count, true));
    }
}
