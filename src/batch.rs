use vstd::prelude::*;
use crate::derive::{address_of, pk_to_address};
use crate::sampler::sample_scalar;
use crate::scalar::valid_scalar;
use crate::score::{
    address_matches, calculate_level, leading_zero_bits, lemma_level_bound, mask_matches,
};

verus! {

/// A kept scalar, its address and the address's rarity level.
#[derive(Clone, Copy, Debug, PartialEq, Eq)]
pub struct RareKey {
    pub private_key: [u8; 32],
    pub address: [u8; 20],
    pub level: u8,
}

/// A scalar and its address, found by a mask search.
#[derive(Clone, Copy, Debug, PartialEq, Eq)]
pub struct PrivateKeyAndAddress {
    pub private_key: [u8; 32],
    pub address: [u8; 20],
}

/// Rarity level of the address of a scalar.
pub open spec fn scalar_level(s: Seq<u8>) -> nat {
    leading_zero_bits(address_of(s))
}

/// `k` records scalar `s`, its address and its level.
pub open spec fn is_rare_key_of(k: RareKey, s: Seq<u8>) -> bool {
    &&& k.private_key@ == s
    &&& k.address@ == address_of(s)
    &&& k.level as nat == scalar_level(s)
}

/// The scalars among `draws` whose level reaches `threshold`, in draw order.
pub open spec fn kept_scalars(draws: Seq<Seq<u8>>, threshold: u8) -> Seq<Seq<u8>>
    decreases draws.len(),
{
    if draws.len() == 0 {
        seq![]
    } else {
        let rest = kept_scalars(draws.drop_last(), threshold);
        if scalar_level(draws.last()) >= threshold {
            rest.push(draws.last())
        } else {
            rest
        }
    }
}

pub open spec fn all_valid(draws: Seq<Seq<u8>>) -> bool {
    forall|i: int| 0 <= i < draws.len() ==> valid_scalar(#[trigger] draws[i])
}

/// `keys` is what a rarity batch over the valid scalars `draws` returns.
pub open spec fn batch_outcome(keys: Seq<RareKey>, draws: Seq<Seq<u8>>, threshold: u8) -> bool {
    &&& all_valid(draws)
    &&& keys.len() == kept_scalars(draws, threshold).len()
    &&& forall|k: int|
        0 <= k < keys.len() ==> is_rare_key_of(#[trigger] keys[k], kept_scalars(draws, threshold)[k])
}

/// `keys` is what a rarity batch of `n` valid draws returns.
pub open spec fn rare_batch(keys: Seq<RareKey>, n: nat, threshold: u8) -> bool {
    exists|draws: Seq<Seq<u8>>| draws.len() == n && #[trigger] batch_outcome(keys, draws, threshold)
}

/// With threshold zero every draw is kept.
pub proof fn lemma_threshold_zero_keeps_all(draws: Seq<Seq<u8>>)
    ensures
        kept_scalars(draws, 0) == draws,
    decreases draws.len(),
{
    if draws.len() > 0 {
        lemma_threshold_zero_keeps_all(draws.drop_last());
        assert(draws.drop_last().push(draws.last()) =~= draws);
    }
}

/// No address reaches a level above 160, so such a threshold keeps nothing.
pub proof fn lemma_unreachable_threshold_keeps_none(draws: Seq<Seq<u8>>, threshold: u8)
    requires
        threshold > 160,
    ensures
        kept_scalars(draws, threshold).len() == 0,
    decreases draws.len(),
{
    if draws.len() > 0 {
        lemma_unreachable_threshold_keeps_none(draws.drop_last(), threshold);
        lemma_level_bound(address_of(draws.last()));
    }
}

/// Scores one valid scalar: its record when its level reaches `level_threshold`.
pub fn rare_key_for(pk_bytes: &[u8; 32], level_threshold: u8) -> (r: Option<RareKey>)
    requires
        valid_scalar(pk_bytes@),
    ensures
        r is Some <==> scalar_level(pk_bytes@) >= level_threshold,
        r matches Some(k) ==> is_rare_key_of(k, pk_bytes@),
{
    let address = pk_to_address(pk_bytes);
    let level = calculate_level(&address);
    if level >= level_threshold {
        Some(RareKey { private_key: *pk_bytes, address, level })
    } else {
        None
    }
}

/// Runs `batch_size` draws of a random valid scalar and returns, in draw
/// order, those whose address level reaches `level_threshold`. `None` when
/// the random source fails.
pub fn generate_rare_keys_batch(level_threshold: u8, batch_size: u32) -> (r: Option<Vec<RareKey>>)
    ensures
        r matches Some(keys) ==> rare_batch(keys@, batch_size as nat, level_threshold),
        batch_size == 0 ==> (r matches Some(keys) && keys@.len() == 0),
        level_threshold == 0 ==> (r matches Some(keys) ==> keys@.len() == batch_size),
        level_threshold > 160 ==> (r matches Some(keys) ==> keys@.len() == 0),
{
    let mut found_keys: Vec<RareKey> = Vec::new();
    let ghost mut draws: Seq<Seq<u8>> = seq![];
    let mut i: u32 = 0;
    while i < batch_size
        invariant
            i <= batch_size,
            draws.len() == i,
            batch_outcome(found_keys@, draws, level_threshold),
        decreases batch_size - i,
    {
        let pk_bytes = match sample_scalar() {
            Some(s) => s,
            None => return None,
        };
        let ghost prev = draws;
        proof {
            draws = draws.push(pk_bytes@);
            assert(draws.drop_last() =~= prev);
        }
        match rare_key_for(&pk_bytes, level_threshold) {
            Some(key) => {
                found_keys.push(key);
            },
            None => {},
        }
        assert(all_valid(draws)) by {
            assert forall|k: int| 0 <= k < draws.len() implies valid_scalar(#[trigger] draws[k]) by {
                if k < prev.len() {
                    assert(draws[k] == prev[k]);
                }
            }
        }
        i = i + 1;
    }
    proof {
        if level_threshold == 0 {
            lemma_threshold_zero_keeps_all(draws);
        }
        if level_threshold > 160 {
            lemma_unreachable_threshold_keeps_none(draws, level_threshold);
        }
        assert(rare_batch(found_keys@, batch_size as nat, level_threshold));
    }
    Some(found_keys)
}

/// A mask search request: the target bits, which bits count, and how many
/// scalars to try.
#[derive(Clone, Copy, Debug, PartialEq, Eq)]
pub struct Mask {
    pub value: [u8; 20],
    pub care: [u8; 20],
    pub batch_size: u32,
}

/// Outcome of a mask search.
#[derive(Clone, Copy, Debug, PartialEq, Eq)]
pub enum MaskSearch {
    /// The first scalar whose address matched.
    Found(PrivateKeyAndAddress),
    /// The whole budget was tried without a match.
    NotFound,
    /// The request was not exactly 44 bytes long.
    InvalidInput,
    /// The random source failed.
    EntropyFailure,
}

/// Big-endian value of four bytes.
pub open spec fn be_u32(b: Seq<u8>) -> nat {
    (b[0] as nat) * 16777216 + (b[1] as nat) * 65536 + (b[2] as nat) * 256 + (b[3] as nat)
}

/// Reads `[value: 20][care: 20][batch size, big-endian: 4]`; `None` unless the
/// input is exactly 44 bytes long.
pub fn parse_mask(mask: &[u8]) -> (r: Option<Mask>)
    ensures
        r is Some <==> mask@.len() == 44,
        r matches Some(m) ==> {
            &&& m.value@ == mask@.subrange(0, 20)
            &&& m.care@ == mask@.subrange(20, 40)
            &&& m.batch_size as nat == be_u32(mask@.subrange(40, 44))
        },
{
    if mask.len() != 44 {
        return None;
    }
    let mut value = [0u8; 20];
    let mut care = [0u8; 20];
    let mut i: usize = 0;
    while i < 20
        invariant
            0 <= i <= 20,
            mask@.len() == 44,
            value@.len() == 20,
            care@.len() == 20,
            forall|k: int| 0 <= k < i ==> value@[k] == mask@[k] && care@[k] == mask@[k + 20],
        decreases 20 - i,
    {
        value[i] = mask[i];
        care[i] = mask[i + 20];
        i = i + 1;
    }
    assert(value@ =~= mask@.subrange(0, 20));
    assert(care@ =~= mask@.subrange(20, 40));
    let batch_size: u32 = (mask[40] as u32) * 16777216 + (mask[41] as u32) * 65536 + (mask[42]
        as u32) * 256 + (mask[43] as u32);
    Some(Mask { value, care, batch_size })
}

/// The scalars of `draws` are valid and none of their addresses matches.
pub open spec fn all_miss(draws: Seq<Seq<u8>>, value: Seq<u8>, care: Seq<u8>) -> bool {
    forall|i: int|
        0 <= i < draws.len() ==> valid_scalar(#[trigger] draws[i]) && !mask_matches(
            address_of(draws[i]),
            value,
            care,
        )
}

/// Some `n` valid draws could all have missed.
pub open spec fn missed_for(n: nat, value: Seq<u8>, care: Seq<u8>) -> bool {
    exists|draws: Seq<Seq<u8>>| draws.len() == n && #[trigger] all_miss(draws, value, care)
}

/// `p` holds a valid scalar and its address, which matches the mask.
pub open spec fn is_match(p: PrivateKeyAndAddress, value: Seq<u8>, care: Seq<u8>) -> bool {
    &&& valid_scalar(p.private_key@)
    &&& p.address@ == address_of(p.private_key@)
    &&& mask_matches(p.address@, value, care)
}

/// Tests one valid scalar against the mask.
pub fn check_candidate(pk_bytes: &[u8; 32], value: &[u8; 20], care: &[u8; 20]) -> (r: Option<
    PrivateKeyAndAddress,
>)
    requires
        valid_scalar(pk_bytes@),
    ensures
        r is Some <==> mask_matches(address_of(pk_bytes@), value@, care@),
        r matches Some(p) ==> p.private_key@ == pk_bytes@ && is_match(p, value@, care@),
{
    let address = pk_to_address(pk_bytes);
    if address_matches(&address, value, care) {
        Some(PrivateKeyAndAddress { private_key: *pk_bytes, address })
    } else {
        None
    }
}

/// Tries up to `mask.batch_size` random valid scalars and returns the first
/// whose address matches; draws nothing when the budget is zero. The draws
/// themselves are random and not part of the result, so of a match the
/// contract states only that it is one and that the budget allowed a draw.
pub fn search_mask(mask: &Mask) -> (r: MaskSearch)
    ensures
        !(r is InvalidInput),
        r matches MaskSearch::Found(p) ==> is_match(p, mask.value@, mask.care@)
            && mask.batch_size > 0,
        r is NotFound ==> missed_for(mask.batch_size as nat, mask.value@, mask.care@),
        mask.batch_size == 0 ==> r is NotFound,
{
    let ghost mut draws: Seq<Seq<u8>> = seq![];
    let mut i: u32 = 0;
    while i < mask.batch_size
        invariant
            i <= mask.batch_size,
            draws.len() == i,
            all_miss(draws, mask.value@, mask.care@),
        decreases mask.batch_size - i,
    {
        let pk_bytes = match sample_scalar() {
            Some(s) => s,
            None => return MaskSearch::EntropyFailure,
        };
        match check_candidate(&pk_bytes, &mask.value, &mask.care) {
            Some(found) => {
                return MaskSearch::Found(found);
            },
            None => {},
        }
        let ghost prev = draws;
        proof {
            draws = draws.push(pk_bytes@);
            assert forall|k: int| 0 <= k < draws.len() implies valid_scalar(#[trigger] draws[k])
                && !mask_matches(address_of(draws[k]), mask.value@, mask.care@) by {
                if k < prev.len() {
                    assert(draws[k] == prev[k]);
                }
            }
        }
        i = i + 1;
    }
    assert(missed_for(draws.len(), mask.value@, mask.care@));
    MaskSearch::NotFound
}

/// Searches for an address matching a 44-byte request
/// `[value: 20][care: 20][batch size, big-endian: 4]`; any other length is
/// `InvalidInput`, distinct from `NotFound`.
pub fn find_address_with_mask(mask: &[u8]) -> (r: MaskSearch)
    ensures
        r is InvalidInput <==> mask@.len() != 44,
        mask@.len() == 44 ==> {
            let value = mask@.subrange(0, 20);
            let care = mask@.subrange(20, 40);
            let budget = be_u32(mask@.subrange(40, 44));
            &&& r matches MaskSearch::Found(p) ==> is_match(p, value, care) && budget > 0
            &&& r is NotFound ==> missed_for(budget, value, care)
            &&& budget == 0 ==> r is NotFound
        },
{
    match parse_mask(mask) {
        Some(m) => search_mask(&m),
        None => MaskSearch::InvalidInput,
    }
}

} // verus!
