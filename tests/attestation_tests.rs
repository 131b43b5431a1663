use bls_bench::attestation::{attestation_from_draws, generate_random_attestation, AttestationData};
use bls_bench::crypto::DOMAIN_TAG;
use rand::rngs::StdRng;
use rand::SeedableRng;

fn sample() -> AttestationData {
    AttestationData {
        slot: 0x0102030405060708,
        index: 42,
        beacon_block_root: [0xaa; 32],
        source_epoch: 7,
        source_root: [0xbb; 32],
        target_epoch: u64::MAX,
        target_root: [0xcc; 32],
    }
}

#[test]
fn serialize_has_fixed_layout() {
    let d = sample();
    let bytes = d.serialize();
    assert_eq!(bytes.len(), 128);
    assert_eq!(&bytes[0..8], &[8, 7, 6, 5, 4, 3, 2, 1]);
    assert_eq!(&bytes[8..16], &42u64.to_le_bytes());
    assert_eq!(&bytes[16..48], &[0xaa; 32]);
    assert_eq!(&bytes[48..56], &7u64.to_le_bytes());
    assert_eq!(&bytes[56..88], &[0xbb; 32]);
    assert_eq!(&bytes[88..96], &[0xff; 8]);
    assert_eq!(&bytes[96..128], &[0xcc; 32]);
}

#[test]
fn serialize_is_deterministic() {
    let a = sample();
    let b = sample();
    assert_eq!(a.serialize(), b.serialize());
    assert_eq!(a.serialize(), a.serialize());
}

#[test]
fn serialize_of_zero_fields_is_all_zero() {
    let d = attestation_from_draws(0, 0, [0; 32], 0, [0; 32], 0, [0; 32]);
    assert_eq!(d.serialize(), vec![0u8; 128]);
}

#[test]
fn draws_reduce_index_only() {
    let d = attestation_from_draws(9, 70000, [1; 32], 10, [2; 32], 11, [3; 32]);
    assert_eq!(d.slot, 9);
    assert_eq!(d.index, 70000 % 65536);
    assert_eq!(d.index, 4464);
    assert_eq!(d.beacon_block_root, [1; 32]);
    assert_eq!(d.source_epoch, 10);
    assert_eq!(d.source_root, [2; 32]);
    assert_eq!(d.target_epoch, 11);
    assert_eq!(d.target_root, [3; 32]);
}

#[test]
fn random_attestations_keep_index_in_range() {
    let mut rng = StdRng::seed_from_u64(1);
    for _ in 0..200 {
        let d = generate_random_attestation(&mut rng);
        assert!(d.index < 65536);
    }
}

#[test]
fn seeded_generation_is_reproducible() {
    let mut a = StdRng::seed_from_u64(5);
    let mut b = StdRng::seed_from_u64(5);
    let x = generate_random_attestation(&mut a);
    let y = generate_random_attestation(&mut b);
    assert_eq!(x.serialize(), y.serialize());
}

#[test]
fn domain_tag_is_the_pop_suite() {
    assert_eq!(&DOMAIN_TAG[..], b"BLS_SIG_BLS12381G2_XMD:SHA-256_SSWU_RO_POP_");
}
