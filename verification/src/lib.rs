//! Constant-time software core of an AES-GCM authenticated-encryption
//! primitive: a portable batched AES engine for counter-mode keystream
//! generation, and a GHASH/GCM universal-hash context whose multiplication
//! step is serviced by a backend selected once per key from a CPU-feature
//! snapshot.

pub mod aes;
pub mod batch;
pub mod cpu;
pub mod ctr;
pub mod gcm;
pub mod gf;
pub mod ghash;
