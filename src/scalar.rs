use vstd::prelude::*;

verus! {

/// Smallest valid private-key scalar (one), big-endian.
pub const PK_MIN: [u8; 32] = [
    0x00, 0x00, 0x00, 0x00, 0x00, 0x00, 0x00, 0x00, 0x00, 0x00, 0x00, 0x00, 0x00, 0x00, 0x00, 0x00,
    0x00, 0x00, 0x00, 0x00, 0x00, 0x00, 0x00, 0x00, 0x00, 0x00, 0x00, 0x00, 0x00, 0x00, 0x00, 0x01,
];

/// Order of the secp256k1 group, big-endian: the exclusive upper bound of valid scalars.
pub const CURVE_ORDER: [u8; 32] = [
    0xFF, 0xFF, 0xFF, 0xFF, 0xFF, 0xFF, 0xFF, 0xFF, 0xFF, 0xFF, 0xFF, 0xFF, 0xFF, 0xFF, 0xFF, 0xFE,
    0xBA, 0xAE, 0xDC, 0xE6, 0xAF, 0x48, 0xA0, 0x3B, 0xBF, 0xD2, 0x5E, 0x8C, 0xD0, 0x36, 0x41, 0x41,
];

pub open spec fn min_scalar() -> Seq<u8> {
    seq![
        0x00u8, 0x00, 0x00, 0x00, 0x00, 0x00, 0x00, 0x00, 0x00, 0x00, 0x00, 0x00, 0x00, 0x00, 0x00, 0x00,
        0x00, 0x00, 0x00, 0x00, 0x00, 0x00, 0x00, 0x00, 0x00, 0x00, 0x00, 0x00, 0x00, 0x00, 0x00, 0x01,
    ]
}

pub open spec fn curve_order() -> Seq<u8> {
    seq![
        0xFFu8, 0xFF, 0xFF, 0xFF, 0xFF, 0xFF, 0xFF, 0xFF, 0xFF, 0xFF, 0xFF, 0xFF, 0xFF, 0xFF, 0xFF, 0xFE,
        0xBA, 0xAE, 0xDC, 0xE6, 0xAF, 0x48, 0xA0, 0x3B, 0xBF, 0xD2, 0x5E, 0x8C, 0xD0, 0x36, 0x41, 0x41,
    ]
}

/// `a < b` in byte-wise lexicographic order, for sequences of equal length:
/// they agree up to some index, where `a` holds the smaller byte.
pub open spec fn lex_lt(a: Seq<u8>, b: Seq<u8>) -> bool {
    exists|i: int|
        0 <= i < a.len() && i < b.len() && a.subrange(0, i) == b.subrange(0, i) && a[i] < b[i]
}

/// A valid private-key scalar: `MIN <= s < CURVE_ORDER` in lexicographic order.
pub open spec fn valid_scalar(s: Seq<u8>) -> bool {
    s.len() == 32 && !lex_lt(s, min_scalar()) && lex_lt(s, curve_order())
}

/// Byte-wise lexicographic `a < b`.
fn bytes_lt(a: &[u8; 32], b: &[u8; 32]) -> (r: bool)
    ensures
        r == lex_lt(a@, b@),
{
    let mut i: usize = 0;
    while i < 32
        invariant
            0 <= i <= 32,
            a@.len() == 32,
            b@.len() == 32,
            a@.subrange(0, i as int) == b@.subrange(0, i as int),
        decreases 32 - i,
    {
        if a[i] != b[i] {
            let r = a[i] < b[i];
            proof {
                if r {
                    assert(lex_lt(a@, b@));
                } else {
                    assert forall|j: int|
                        0 <= j < a@.len() && j < b@.len() && a@.subrange(0, j) == b@.subrange(0, j)
                            implies !(a@[j] < b@[j]) by {
                        if j > i {
                            assert(a@.subrange(0, j)[i as int] == a@[i as int]);
                            assert(b@.subrange(0, j)[i as int] == b@[i as int]);
                        } else if j < i {
                            assert(a@.subrange(0, i as int)[j] == a@[j]);
                            assert(b@.subrange(0, i as int)[j] == b@[j]);
                        }
                    }
                }
            }
            return r;
        }
        proof {
            assert(a@.subrange(0, i + 1) =~= a@.subrange(0, i as int).push(a@[i as int]));
            assert(b@.subrange(0, i + 1) =~= b@.subrange(0, i as int).push(b@[i as int]));
        }
        i = i + 1;
    }
    proof {
        assert forall|j: int|
            0 <= j < a@.len() && j < b@.len() && a@.subrange(0, j) == b@.subrange(0, j)
                implies !(a@[j] < b@[j]) by {
            assert(a@.subrange(0, 32)[j] == a@[j]);
            assert(b@.subrange(0, 32)[j] == b@[j]);
        }
    }
    false
}

/// Whether `bytes` is a valid private-key scalar: at least one and below the
/// group order, compared byte by byte as big-endian numbers.
pub fn is_in_range(bytes: &[u8; 32]) -> (r: bool)
    ensures
        r == valid_scalar(bytes@),
{
    let min = PK_MIN;
    let order = CURVE_ORDER;
    assert(min@ =~= min_scalar());
    assert(order@ =~= curve_order());
    !bytes_lt(bytes, &min) && bytes_lt(bytes, &order)
}

} // verus!
