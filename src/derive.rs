use vstd::prelude::*;
use k256::elliptic_curve::sec1::ToEncodedPoint;
use sha3::Digest;
use crate::scalar::valid_scalar;

verus! {

/// The SEC1 uncompressed encoding of the public point of a scalar:
/// a format byte, then the two 32-byte coordinates.
pub uninterp spec fn public_key_of(scalar: Seq<u8>) -> Seq<u8>;

/// The Keccak-256 digest of a byte string.
pub uninterp spec fn keccak256_of(data: Seq<u8>) -> Seq<u8>;

/// Relies on k256's `SecretKey::from_slice`, `SecretKey::public_key` and
/// `PublicKey::to_encoded_point(false)`: a scalar in `[1, order)` is accepted,
/// and its uncompressed point encoding is 65 bytes long.
#[verifier::external_body]
fn uncompressed_public_key(scalar: &[u8; 32]) -> (r: Vec<u8>)
    requires
        valid_scalar(scalar@),
    ensures
        r@ == public_key_of(scalar@),
        r@.len() == 65,
{
    let secret = k256::SecretKey::from_slice(scalar).unwrap();
    secret.public_key().to_encoded_point(false).as_bytes().to_vec()
}

/// Relies on sha3's `Keccak256::digest`: a 32-byte digest of the input.
#[verifier::external_body]
fn keccak256(data: &[u8; 64]) -> (r: [u8; 32])
    ensures
        r@ == keccak256_of(data@),
{
    sha3::Keccak256::digest(data).into()
}

/// The address of a scalar: the last 20 bytes of the Keccak-256 digest of its
/// uncompressed public point without the format byte.
pub open spec fn address_of(scalar: Seq<u8>) -> Seq<u8> {
    Seq::new(20, |i: int| keccak256_of(public_key_of(scalar).subrange(1, 65))[i + 12])
}

/// Derives the 20-byte address of a valid private-key scalar.
pub fn pk_to_address(pk_bytes: &[u8; 32]) -> (r: [u8; 20])
    requires
        valid_scalar(pk_bytes@),
    ensures
        r@ == address_of(pk_bytes@),
{
    let public_key = uncompressed_public_key(pk_bytes);
    let mut point = [0u8; 64];
    let mut i: usize = 0;
    while i < 64
        invariant
            0 <= i <= 64,
            public_key@.len() == 65,
            point@.len() == 64,
            forall|k: int| 0 <= k < i ==> point@[k] == public_key@[k + 1],
        decreases 64 - i,
    {
        point[i] = public_key[i + 1];
        i = i + 1;
    }
    assert(point@ =~= public_key@.subrange(1, 65));
    let hash = keccak256(&point);
    let mut addr = [0u8; 20];
    let mut j: usize = 0;
    while j < 20
        invariant
            0 <= j <= 20,
            hash@.len() == 32,
            addr@.len() == 20,
            forall|k: int| 0 <= k < j ==> addr@[k] == hash@[k + 12],
        decreases 20 - j,
    {
        addr[j] = hash[j + 12];
        j = j + 1;
    }
    assert(addr@ =~= address_of(pk_bytes@));
    addr
}

/// Derivation is deterministic: the same scalar always yields the same address.
pub proof fn lemma_derivation_deterministic(a: Seq<u8>, b: Seq<u8>)
    requires
        valid_scalar(a),
        a == b,
    ensures
        address_of(a) == address_of(b),
        address_of(a).len() == 20,
{
}

} // verus!
