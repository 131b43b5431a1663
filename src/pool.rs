use crate::attestation::{generate_random_attestation, generate_random_bytes, AttestationData, INDEX_BOUND};
use crate::crypto::{
    key_gen, public_key_of, secret_key_of, sign, signature_accepts, signature_of, sk_to_pk, verify,
    DOMAIN_TAG,
};
use blst::min_pk::{PublicKey, Signature};
use rand::rngs::StdRng;
use vstd::prelude::*;

verus! {

/// An attestation with its signature and the public key to check it against.
pub struct SignedAttestation {
    pub data: AttestationData,
    pub signature: Signature,
    pub public_key: PublicKey,
}

impl SignedAttestation {
    /// Whether the signature verifies over the encoded data under the public
    /// key, with the domain tag, group check on, no prefix, no key validation.
    pub open spec fn accepted(self) -> bool {
        signature_accepts(
            self.signature,
            true,
            self.data.encoding(),
            DOMAIN_TAG@,
            Seq::empty(),
            self.public_key,
            false,
        )
    }

    /// Whether the key generated from some 32 bytes of key material, with no
    /// key info, signed the encoded data with the domain tag, no prefix, and
    /// has the stored public key.
    pub open spec fn signed_by_generated_key(self) -> bool {
        exists|ikm: Seq<u8>|
            ikm.len() == 32 && #[trigger] public_key_of(secret_key_of(ikm, Seq::empty()))
                == self.public_key && self.signature == signature_of(
                secret_key_of(ikm, Seq::empty()),
                self.data.encoding(),
                DOMAIN_TAG@,
                Seq::empty(),
            )
    }
}

/// Verifies one signed attestation against the message encoded afresh from
/// its data.
pub fn verify_one(signed: &SignedAttestation) -> (r: bool)
    ensures
        r == signed.accepted(),
{
    let message = signed.data.serialize();
    let empty: [u8; 0] = [];
    proof {
        assert(empty@ =~= Seq::<u8>::empty());
    }
    verify(&signed.signature, true, &message, &DOMAIN_TAG, &empty, &signed.public_key, false)
}

/// Whether the `n` elements from `start` on, cycling through `pool`, are all
/// accepted.
pub open spec fn all_accepted_from(pool: Seq<SignedAttestation>, start: int, n: int) -> bool {
    forall|k: int| 0 <= k < n ==> #[trigger] pool[(start + k) % pool.len() as int].accepted()
}

/// The smallest offset from `k` up to `n` whose element, cycling through
/// `pool` from `start`, is rejected; `n` where there is none.
pub open spec fn first_bad_from(pool: Seq<SignedAttestation>, start: int, k: int, n: int) -> int
    decreases n - k,
{
    if k >= n {
        n
    } else if !pool[(start + k) % pool.len() as int].accepted() {
        k
    } else {
        first_bad_from(pool, start, k + 1, n)
    }
}

/// Verifies the `n` elements from `start` on, cycling through `pool`, one
/// after another, and stops at the first that fails: its offset is returned.
pub fn first_rejected(pool: &Vec<SignedAttestation>, start: usize, n: usize) -> (r: Option<usize>)
    requires
        pool@.len() > 0,
    ensures
        r is None <==> all_accepted_from(pool@, start as int, n as int),
        r matches Some(k) ==> k < n && !pool@[(start + k) % pool@.len() as int].accepted()
            && all_accepted_from(pool@, start as int, k as int),
        r matches Some(k) ==> k == first_bad_from(pool@, start as int, 0, n as int),
        r is None ==> first_bad_from(pool@, start as int, 0, n as int) == n,
{
    let len = pool.len();
    let mut idx: usize = start % len;
    let mut i: usize = 0;
    while i < n
        invariant
            len == pool@.len(),
            len > 0,
            i <= n,
            idx == (start + i) % (len as int),
            all_accepted_from(pool@, start as int, i as int),
            first_bad_from(pool@, start as int, 0, n as int) == first_bad_from(
                pool@,
                start as int,
                i as int,
                n as int,
            ),
        decreases n - i,
    {
        if !verify_one(&pool[idx]) {
            return Some(i);
        }
        proof {
            assert forall|k: int| 0 <= k < i + 1 implies #[trigger] pool@[(start + k) % len as int].accepted() by {
                if k < i {
                    assert(pool@[(start + k) % len as int].accepted());
                }
            }
        }
        let ghost old_idx = idx;
        if idx + 1 == len {
            idx = 0;
        } else {
            idx = idx + 1;
        }
        proof {
            let m = len as int;
            vstd::arithmetic::div_mod::lemma_add_mod_noop(start + i, 1, m);
            if m == 1 {
                assert(1int % m == 0);
                assert(idx == 0);
            } else {
                vstd::arithmetic::div_mod::lemma_small_mod(1, m as nat);
                if old_idx + 1 < m {
                    vstd::arithmetic::div_mod::lemma_small_mod((old_idx + 1) as nat, m as nat);
                } else {
                    vstd::arithmetic::div_mod::lemma_mod_self_0(m);
                }
            }
        }
        i = i + 1;
    }
    None
}

/// Simulates a batch: verifies the `n` elements from `start` on one by one,
/// cycling through `pool`, and is true iff all of them are accepted. No
/// aggregate check is made; the first failure ends the walk.
pub fn verify_batch_simulated(pool: &Vec<SignedAttestation>, start: usize, n: usize) -> (r: bool)
    requires
        pool@.len() > 0,
    ensures
        r == all_accepted_from(pool@, start as int, n as int),
{
    first_rejected(pool, start, n).is_none()
}

/// Builds `count` signed attestations from `rng`: random data, a fresh key
/// from 32 random bytes, and a signature over the encoded data with the
/// domain tag. Key material of 32 bytes always yields a key.
pub fn generate_test_attestations(rng: &mut StdRng, count: usize) -> (r: Vec<SignedAttestation>)
    ensures
        r@.len() == count,
        forall|i: int|
            0 <= i < count ==> (#[trigger] r@[i]).data.index < INDEX_BOUND
                && r@[i].signed_by_generated_key(),
{
    let mut attestations: Vec<SignedAttestation> = Vec::with_capacity(count);
    let mut c: usize = 0;
    while c < count
        invariant
            c <= count,
            attestations@.len() == c,
            forall|i: int|
                0 <= i < c ==> (#[trigger] attestations@[i]).data.index < INDEX_BOUND
                    && attestations@[i].signed_by_generated_key(),
        decreases count - c,
    {
        let attestation = generate_random_attestation(rng);
        let ikm = generate_random_bytes(rng, 32);
        let no_info: [u8; 0] = [];
        let secret_key = key_gen(ikm.as_slice(), &no_info).unwrap();
        let public_key = sk_to_pk(&secret_key);
        let message = attestation.serialize();
        let signature = sign(&secret_key, &message, &DOMAIN_TAG, &no_info);
        let signed = SignedAttestation { data: attestation, signature, public_key };
        proof {
            assert(no_info@ =~= Seq::<u8>::empty());
            assert(secret_key == secret_key_of(ikm@, Seq::empty()));
            assert(public_key_of(secret_key_of(ikm@, Seq::empty())) == signed.public_key);
            assert(signed.signed_by_generated_key());
        }
        attestations.push(signed);
        c = c + 1;
    }
    attestations
}

/// A simulated batch succeeds exactly when each single verification of the
/// elements it walks, from `start` on and cycling through the pool,
/// succeeds; where one fails, the batch fails.
pub proof fn batch_matches_single_verifications(pool: Seq<SignedAttestation>, start: int, n: int)
    requires
        pool.len() > 0,
        start >= 0,
        n >= 0,
    ensures
        all_accepted_from(pool, start, n) <==> (forall|k: int|
            0 <= k < n ==> #[trigger] pool[(start + k) % pool.len() as int].accepted()),
        forall|k: int|
            0 <= k < n && !#[trigger] pool[(start + k) % pool.len() as int].accepted()
                ==> !all_accepted_from(pool, start, n),
{
}

} // verus!
