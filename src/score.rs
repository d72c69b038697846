use vstd::prelude::*;

verus! {

/// Number of leading zero bits of one byte (8 for zero).
pub open spec fn byte_leading_zeros(b: u8) -> nat {
    if b >= 128 {
        0
    } else if b >= 64 {
        1
    } else if b >= 32 {
        2
    } else if b >= 16 {
        3
    } else if b >= 8 {
        4
    } else if b >= 4 {
        5
    } else if b >= 2 {
        6
    } else if b >= 1 {
        7
    } else {
        8
    }
}

/// Rarity level of a byte string: 8 for each leading zero byte, then the
/// leading zero bits of the first non-zero byte; later bytes are never read.
pub open spec fn leading_zero_bits(s: Seq<u8>) -> nat
    decreases s.len(),
{
    if s.len() == 0 {
        0
    } else if s[0] == 0 {
        8 + leading_zero_bits(s.drop_first())
    } else {
        byte_leading_zeros(s[0])
    }
}

/// The rarity level never exceeds the number of bits.
pub proof fn lemma_level_bound(s: Seq<u8>)
    ensures
        leading_zero_bits(s) <= 8 * s.len(),
    decreases s.len(),
{
    if s.len() > 0 && s[0] == 0 {
        lemma_level_bound(s.drop_first());
    }
}

fn byte_level(b: u8) -> (r: u8)
    ensures
        r as nat == byte_leading_zeros(b),
{
    if b >= 128 {
        0
    } else if b >= 64 {
        1
    } else if b >= 32 {
        2
    } else if b >= 16 {
        3
    } else if b >= 8 {
        4
    } else if b >= 4 {
        5
    } else if b >= 2 {
        6
    } else if b >= 1 {
        7
    } else {
        8
    }
}

/// Rarity level of an address: the count of its leading zero bits, 0 to 160.
pub fn calculate_level(address: &[u8; 20]) -> (r: u8)
    ensures
        r as nat == leading_zero_bits(address@),
        r <= 160,
{
    let mut level: u8 = 0;
    let mut i: usize = 0;
    proof {
        assert(address@.subrange(0, 20) =~= address@);
    }
    while i < 20
        invariant
            0 <= i <= 20,
            address@.len() == 20,
            level as nat == 8 * i,
            leading_zero_bits(address@) == level + leading_zero_bits(address@.subrange(i as int, 20)),
        decreases 20 - i,
    {
        let byte = address[i];
        if byte == 0 {
            proof {
                assert(address@.subrange(i as int, 20).drop_first() =~= address@.subrange(i + 1, 20));
            }
            level = level + 8;
        } else {
            let r = level + byte_level(byte);
            proof {
                lemma_level_bound(address@);
            }
            return r;
        }
        i = i + 1;
    }
    proof {
        lemma_level_bound(address@);
    }
    level
}

/// Whether `addr` agrees with `value` on every bit set in `care`.
pub open spec fn mask_matches(addr: Seq<u8>, value: Seq<u8>, care: Seq<u8>) -> bool {
    forall|i: int| 0 <= i < addr.len() ==> #[trigger] (addr[i] & care[i]) == value[i] & care[i]
}

/// Whether `addr` agrees with `value` on every bit set in `care`; stops at
/// the first byte that differs.
pub fn address_matches(addr: &[u8; 20], value: &[u8; 20], care: &[u8; 20]) -> (r: bool)
    ensures
        r == mask_matches(addr@, value@, care@),
{
    let mut j: usize = 0;
    while j < 20
        invariant
            0 <= j <= 20,
            addr@.len() == 20,
            forall|i: int| 0 <= i < j ==> #[trigger] (addr@[i] & care@[i]) == value@[i] & care@[i],
        decreases 20 - j,
    {
        if (addr[j] & care[j]) != (value[j] & care[j]) {
            return false;
        }
        j = j + 1;
    }
    true
}

/// A mask that cares about no bit matches every address.
pub proof fn lemma_zero_care_matches(addr: Seq<u8>, value: Seq<u8>, care: Seq<u8>)
    requires
        addr.len() == 20,
        value.len() == 20,
        care.len() == 20,
        forall|i: int| 0 <= i < 20 ==> care[i] == 0,
    ensures
        mask_matches(addr, value, care),
{
    assert forall|i: int| 0 <= i < addr.len() implies #[trigger] (addr[i] & care[i]) == value[i]
        & care[i] by {
        let (a, v, c) = (addr[i], value[i], care[i]);
        assert(c == 0 ==> a & c == v & c) by (bit_vector);
    }
}

/// Flipping one bit of the address that the mask cares about flips the
/// outcome, when every other cared bit already agrees with the value.
pub proof fn lemma_flip_cared_bit(addr: Seq<u8>, value: Seq<u8>, care: Seq<u8>, i: int, k: u8)
    requires
        addr.len() == 20,
        value.len() == 20,
        care.len() == 20,
        0 <= i < 20,
        k < 8,
        care[i] & (1u8 << k) != 0,
        forall|j: int| 0 <= j < 20 && j != i ==> #[trigger] (addr[j] & care[j]) == value[j] & care[j],
        addr[i] & care[i] & !(1u8 << k) == value[i] & care[i] & !(1u8 << k),
    ensures
        mask_matches(addr.update(i, addr[i] ^ (1u8 << k)), value, care) == !mask_matches(
            addr,
            value,
            care,
        ),
{
    let flipped = addr.update(i, addr[i] ^ (1u8 << k));
    let (a, v, c) = (addr[i], value[i], care[i]);
    assert(k < 8 && c & (1u8 << k) != 0 && a & c & !(1u8 << k) == v & c & !(1u8 << k) ==> (((a ^ (
    1u8 << k)) & c == v & c) == !(a & c == v & c))) by (bit_vector);
    if mask_matches(addr, value, care) {
        assert((addr[i] & care[i]) == value[i] & care[i]);
        assert((flipped[i] & care[i]) != value[i] & care[i]);
    } else {
        assert((addr[i] & care[i]) != value[i] & care[i]);
        assert forall|j: int| 0 <= j < flipped.len() implies #[trigger] (flipped[j] & care[j])
            == value[j] & care[j] by {
            if j != i {
                assert(flipped[j] == addr[j]);
            }
        }
    }
}

} // verus!
