//! Extract-then-expand key derivation (HKDF) over HMAC-SHA-256, with contracts
//! that pin down every byte of the derived output.
//!
//! Extraction returns its intermediate secret after a byte-level adjustment
//! (see `adjust`), while the derivation context it returns beside it stays
//! keyed with the unadjusted value. That inconsistency is deliberate here and
//! matters for security wherever the returned secret is stored or reused.

mod adjust;
mod errors;
mod hkdf;
mod laws;
mod mac;
mod sealed;

pub use adjust::{adjust, combined_byte, rotl3};
pub use errors::{InvalidLength, InvalidPrkLength};
pub use hkdf::{
    block, concat_segments, extract_raw, okm_spec, salt_key, segment_views, zero_salt, Hkdf,
    HkdfExtract, MAX_OUTPUT_LEN,
};
pub use laws::{
    lemma_adjust_is_local, lemma_adjusted_secret_diverges, lemma_derivation_deterministic,
    lemma_info_split, lemma_raw_prk_reproduces_context,
};
pub use mac::{hmac_sha256, mac_absorbed, mac_key, HmacImpl, HmacSha256, MAC_OUTPUT_SIZE};
