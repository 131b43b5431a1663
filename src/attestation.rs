use byteorder::{ByteOrder, LittleEndian};
use rand::rngs::StdRng;
use rand::Rng;
use vstd::prelude::*;

verus! {

/// Length in bytes of the encoded attestation.
pub const ENCODED_LEN: usize = 128;

/// Exclusive bound on a generated committee index.
pub const INDEX_BOUND: u64 = 65536;

#[verifier::external_type_specification]
#[verifier::external_body]
pub struct ExStdRng(StdRng);

/// Byte `i` of `v`, counting from the least significant one.
pub open spec fn le_byte(v: u64, i: int) -> u8 {
    ((v as int / vstd::arithmetic::power::pow(256, i as nat)) % 256) as u8
}

/// The eight bytes of `v`, least significant first.
pub open spec fn le_bytes(v: u64) -> Seq<u8> {
    Seq::new(8, |i: int| le_byte(v, i))
}

/// Relies on byteorder's `LittleEndian::write_u64`, which stores the bytes of
/// `v` least significant first in an eight-byte buffer.
#[verifier::external_body]
fn u64_le_bytes(v: u64) -> (r: [u8; 8])
    ensures
        r@ == le_bytes(v),
{
    let mut b = [0u8; 8];
    LittleEndian::write_u64(&mut b, v);
    b
}

/// Relies on rand's `Rng::gen::<u64>`: any value may come.
#[verifier::external_body]
fn draw_u64(rng: &mut StdRng) -> (r: u64) {
    rng.gen::<u64>()
}

/// Relies on rand's `Rng::fill` on a 32-byte array: any bytes may come.
#[verifier::external_body]
fn draw_hash(rng: &mut StdRng) -> (r: [u8; 32]) {
    let mut b = [0u8; 32];
    rng.fill(&mut b);
    b
}

/// Relies on rand's `Rng::fill` on a byte slice: `length` bytes, any values.
#[verifier::external_body]
pub(crate) fn generate_random_bytes(rng: &mut StdRng, length: usize) -> (r: Vec<u8>)
    ensures
        r@.len() == length,
{
    let mut bytes = vec![0u8; length];
    rng.fill(&mut bytes[..]);
    bytes
}

/// A vote on two checkpoints: the slot, the committee index, the block root
/// voted for and the source and target checkpoints.
#[derive(Clone, Copy, Debug)]
pub struct AttestationData {
    pub slot: u64,
    pub index: u64,
    pub beacon_block_root: [u8; 32],
    pub source_epoch: u64,
    pub source_root: [u8; 32],
    pub target_epoch: u64,
    pub target_root: [u8; 32],
}

impl AttestationData {
    /// The signed message: every field in order, integers little-endian.
    pub open spec fn encoding(self) -> Seq<u8> {
        le_bytes(self.slot) + le_bytes(self.index) + self.beacon_block_root@ + le_bytes(
            self.source_epoch,
        ) + self.source_root@ + le_bytes(self.target_epoch) + self.target_root@
    }

    /// Encodes the attestation as the 128-byte message that is signed.
    pub fn serialize(&self) -> (r: Vec<u8>)
        ensures
            r@ == self.encoding(),
            r@.len() == ENCODED_LEN,
    {
        let mut buf: Vec<u8> = Vec::with_capacity(ENCODED_LEN);
        append_bytes(&mut buf, &u64_le_bytes(self.slot));
        append_bytes(&mut buf, &u64_le_bytes(self.index));
        append_bytes(&mut buf, &self.beacon_block_root);
        append_bytes(&mut buf, &u64_le_bytes(self.source_epoch));
        append_bytes(&mut buf, &self.source_root);
        append_bytes(&mut buf, &u64_le_bytes(self.target_epoch));
        append_bytes(&mut buf, &self.target_root);
        buf
    }
}

/// Appends the bytes of `src` to `buf`.
fn append_bytes(buf: &mut Vec<u8>, src: &[u8])
    ensures
        final(buf)@ == old(buf)@ + src@,
{
    let mut i: usize = 0;
    while i < src.len()
        invariant
            i <= src@.len(),
            buf@ == old(buf)@ + src@.subrange(0, i as int),
        decreases src@.len() - i,
    {
        buf.push(src[i]);
        i = i + 1;
        assert(src@.subrange(0, i as int) == src@.subrange(0, i - 1 as int).push(src@[i - 1]));
    }
    assert(src@.subrange(0, i as int) == src@);
}

/// The encoding is 128 bytes long and each field stands at a fixed offset:
/// slot at [0, 8), index at [8, 16), block root at [16, 48), source epoch at
/// [48, 56), source root at [56, 88), target epoch at [88, 96) and target
/// root at [96, 128). Values with the same fields encode to the same bytes.
pub proof fn encoding_layout(d: AttestationData, e: AttestationData)
    ensures
        d.encoding().len() == ENCODED_LEN,
        d.encoding().subrange(0, 8) == le_bytes(d.slot),
        d.encoding().subrange(8, 16) == le_bytes(d.index),
        d.encoding().subrange(16, 48) == d.beacon_block_root@,
        d.encoding().subrange(48, 56) == le_bytes(d.source_epoch),
        d.encoding().subrange(56, 88) == d.source_root@,
        d.encoding().subrange(88, 96) == le_bytes(d.target_epoch),
        d.encoding().subrange(96, 128) == d.target_root@,
        d.slot == e.slot && d.index == e.index && d.beacon_block_root@ == e.beacon_block_root@
            && d.source_epoch == e.source_epoch && d.source_root@ == e.source_root@
            && d.target_epoch == e.target_epoch && d.target_root@ == e.target_root@
            ==> d.encoding() == e.encoding(),
{
    let s = d.encoding();
    assert(s.subrange(0, 8) =~= le_bytes(d.slot));
    assert(s.subrange(8, 16) =~= le_bytes(d.index));
    assert(s.subrange(16, 48) =~= d.beacon_block_root@);
    assert(s.subrange(48, 56) =~= le_bytes(d.source_epoch));
    assert(s.subrange(56, 88) =~= d.source_root@);
    assert(s.subrange(88, 96) =~= le_bytes(d.target_epoch));
    assert(s.subrange(96, 128) =~= d.target_root@);
}

/// Builds an attestation from drawn values: the index is reduced below
/// `INDEX_BOUND`, every other field is taken as drawn.
pub fn attestation_from_draws(
    slot: u64,
    index_draw: u64,
    beacon_block_root: [u8; 32],
    source_epoch: u64,
    source_root: [u8; 32],
    target_epoch: u64,
    target_root: [u8; 32],
) -> (r: AttestationData)
    ensures
        r.slot == slot,
        r.index == index_draw % INDEX_BOUND,
        r.beacon_block_root == beacon_block_root,
        r.source_epoch == source_epoch,
        r.source_root == source_root,
        r.target_epoch == target_epoch,
        r.target_root == target_root,
{
    AttestationData {
        slot,
        index: index_draw % INDEX_BOUND,
        beacon_block_root,
        source_epoch,
        source_root,
        target_epoch,
        target_root,
    }
}

/// Draws a random attestation: the three roots first, then slot, index,
/// source epoch and target epoch. The index lies below `INDEX_BOUND`.
pub fn generate_random_attestation(rng: &mut StdRng) -> (r: AttestationData)
    ensures
        r.index < INDEX_BOUND,
{
    let beacon_block_root = draw_hash(rng);
    let source_root = draw_hash(rng);
    let target_root = draw_hash(rng);
    let slot = draw_u64(rng);
    let index_draw = draw_u64(rng);
    let source_epoch = draw_u64(rng);
    let target_epoch = draw_u64(rng);
    attestation_from_draws(
        slot,
        index_draw,
        beacon_block_root,
        source_epoch,
        source_root,
        target_epoch,
        target_root,
    )
}

} // verus!
