use blst::min_pk::{PublicKey, SecretKey, Signature};
use blst::BLST_ERROR;
use vstd::prelude::*;

verus! {

#[verifier::external_type_specification]
#[verifier::external_body]
pub struct ExSecretKey(SecretKey);

#[verifier::external_type_specification]
#[verifier::external_body]
pub struct ExPublicKey(PublicKey);

#[verifier::external_type_specification]
#[verifier::external_body]
pub struct ExSignature(Signature);

#[verifier::external_type_specification]
#[verifier::external_body]
pub struct ExBlstError(BLST_ERROR);

/// The domain-separation tag bound into every signature:
/// `BLS_SIG_BLS12381G2_XMD:SHA-256_SSWU_RO_POP_` in ASCII.
pub const DOMAIN_TAG: [u8; 43] = [
    66, 76, 83, 95, 83, 73, 71, 95, 66, 76, 83, 49, 50, 51, 56, 49, 71, 50, 95, 88, 77, 68, 58, 83,
    72, 65, 45, 50, 53, 54, 95, 83, 83, 87, 85, 95, 82, 79, 95, 80, 79, 80, 95,
];

/// The secret key derived from key material `ikm` and key info `key_info`.
pub uninterp spec fn secret_key_of(ikm: Seq<u8>, key_info: Seq<u8>) -> SecretKey;

/// The public key that belongs to a secret key.
pub uninterp spec fn public_key_of(sk: SecretKey) -> PublicKey;

/// The signature of `msg` under `sk`, with tag `dst` and prefix `aug`.
pub uninterp spec fn signature_of(sk: SecretKey, msg: Seq<u8>, dst: Seq<u8>, aug: Seq<u8>) -> Signature;

/// Whether the verification of `sig` over `msg` under `pk` succeeds, with
/// the given group check, tag, prefix and key validation.
pub uninterp spec fn signature_accepts(
    sig: Signature,
    sig_groupcheck: bool,
    msg: Seq<u8>,
    dst: Seq<u8>,
    aug: Seq<u8>,
    pk: PublicKey,
    pk_validate: bool,
) -> bool;

/// Relies on blst's `SecretKey::key_gen`, which refuses key material shorter
/// than 32 bytes and otherwise derives a key from the material and the key
/// info alone.
#[verifier::external_body]
pub(crate) fn key_gen(ikm: &[u8], key_info: &[u8]) -> (r: Result<SecretKey, BLST_ERROR>)
    ensures
        r.is_ok() <==> ikm@.len() >= 32,
        r matches Ok(sk) ==> sk == secret_key_of(ikm@, key_info@),
{
    SecretKey::key_gen(ikm, key_info)
}

/// Relies on blst's `SecretKey::sk_to_pk`, which depends on the key alone.
#[verifier::external_body]
pub(crate) fn sk_to_pk(sk: &SecretKey) -> (r: PublicKey)
    ensures
        r == public_key_of(*sk),
{
    sk.sk_to_pk()
}

/// Relies on blst's `SecretKey::sign`, which depends on its arguments alone.
#[verifier::external_body]
pub(crate) fn sign(sk: &SecretKey, msg: &[u8], dst: &[u8], aug: &[u8]) -> (r: Signature)
    ensures
        r == signature_of(*sk, msg@, dst@, aug@),
{
    sk.sign(msg, dst, aug)
}

/// Relies on blst's `Signature::verify`, which depends on its arguments
/// alone; the result tells whether it reported `BLST_SUCCESS`.
#[verifier::external_body]
pub(crate) fn verify(
    sig: &Signature,
    sig_groupcheck: bool,
    msg: &[u8],
    dst: &[u8],
    aug: &[u8],
    pk: &PublicKey,
    pk_validate: bool,
) -> (r: bool)
    ensures
        r == signature_accepts(*sig, sig_groupcheck, msg@, dst@, aug@, *pk, pk_validate),
{
    matches!(sig.verify(sig_groupcheck, msg, dst, aug, pk, pk_validate), BLST_ERROR::BLST_SUCCESS)
}

} // verus!
