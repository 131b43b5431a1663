//! Measures how fast BLS12-381 signatures over attestation messages verify:
//! the canonical message encoding, a pool of signed test attestations, the
//! single and simulated-batch verification calls, the time-boxed loops that
//! count verifications, and exact statistics over per-trial counts.

pub mod attestation;
pub mod bench;
pub mod crypto;
pub mod pool;
pub mod stats;
