//! Search for rare account keypairs: sample a private-key scalar, derive its
//! 20-byte address, and keep it when the address is rare enough or matches a
//! value/care bit pattern.

pub mod batch;
pub mod derive;
pub mod sampler;
pub mod scalar;
pub mod score;

pub use batch::{
    check_candidate, find_address_with_mask, generate_rare_keys_batch, parse_mask, rare_key_for,
    search_mask, Mask, MaskSearch, PrivateKeyAndAddress, RareKey,
};
pub use derive::pk_to_address;
pub use sampler::sample_scalar;
pub use scalar::{is_in_range, CURVE_ORDER, PK_MIN};
pub use score::{address_matches, calculate_level};
