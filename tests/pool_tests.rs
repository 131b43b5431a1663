use bls_bench::pool::{
    first_rejected, generate_test_attestations, verify_batch_simulated, verify_one,
    SignedAttestation,
};
use rand::rngs::StdRng;
use rand::SeedableRng;

fn make_pool(count: usize, seed: u64) -> Vec<SignedAttestation> {
    let mut rng = StdRng::seed_from_u64(seed);
    generate_test_attestations(&mut rng, count)
}

fn mismatched(pool: &[SignedAttestation], a: usize, b: usize) -> SignedAttestation {
    SignedAttestation {
        data: pool[a].data,
        signature: pool[b].signature,
        public_key: pool[a].public_key,
    }
}

#[test]
fn generated_pool_has_requested_size() {
    let pool = make_pool(4, 11);
    assert_eq!(pool.len(), 4);
    assert!(pool.iter().all(|s| s.data.index < 65536));
    assert!(make_pool(0, 11).is_empty());
}

#[test]
fn signed_attestations_verify() {
    let pool = make_pool(5, 12);
    for s in &pool {
        assert!(verify_one(s));
    }
}

#[test]
fn changed_message_byte_fails_verification() {
    let pool = make_pool(1, 13);
    let mut slot_changed = SignedAttestation {
        data: pool[0].data,
        signature: pool[0].signature,
        public_key: pool[0].public_key,
    };
    slot_changed.data.slot ^= 1;
    assert!(!verify_one(&slot_changed));
    let mut root_changed = SignedAttestation {
        data: pool[0].data,
        signature: pool[0].signature,
        public_key: pool[0].public_key,
    };
    root_changed.data.target_root[31] ^= 0x80;
    assert!(!verify_one(&root_changed));
}

#[test]
fn wrong_key_fails_verification() {
    let pool = make_pool(2, 14);
    let s = SignedAttestation {
        data: pool[0].data,
        signature: pool[0].signature,
        public_key: pool[1].public_key,
    };
    assert!(!verify_one(&s));
}

#[test]
fn batch_of_valid_pool_passes_with_wraparound() {
    let pool = make_pool(3, 15);
    assert!(verify_batch_simulated(&pool, 2, 7));
    assert!(verify_batch_simulated(&pool, 100, 3));
    assert!(verify_batch_simulated(&pool, 0, 0));
}

#[test]
fn batch_fails_on_bad_element_and_reports_first() {
    let mut pool = make_pool(3, 16);
    let bad = mismatched(&pool, 1, 2);
    pool[1] = bad;
    assert!(!verify_batch_simulated(&pool, 0, 3));
    assert_eq!(first_rejected(&pool, 0, 3), Some(1));
    assert_eq!(first_rejected(&pool, 2, 5), Some(2));
    assert!(verify_batch_simulated(&pool, 2, 2));
    assert_eq!(first_rejected(&pool, 2, 2), None);
}
