use rare_keys::{
    address_matches, calculate_level, check_candidate, find_address_with_mask,
    generate_rare_keys_batch, is_in_range, parse_mask, pk_to_address, rare_key_for,
    sample_scalar, search_mask, Mask, MaskSearch, CURVE_ORDER, PK_MIN,
};

fn scalar(last: u8) -> [u8; 32] {
    let mut s = [0u8; 32];
    s[31] = last;
    s
}

fn hex20(s: &str) -> [u8; 20] {
    let mut out = [0u8; 20];
    for i in 0..20 {
        out[i] = u8::from_str_radix(&s[2 * i..2 * i + 2], 16).unwrap();
    }
    out
}

fn order_minus_one() -> [u8; 32] {
    let mut s = CURVE_ORDER;
    s[31] -= 1;
    s
}

#[test]
fn range_below_min_is_rejected() {
    assert!(!is_in_range(&[0u8; 32]));
}

#[test]
fn range_min_is_accepted() {
    assert!(is_in_range(&PK_MIN));
    assert!(is_in_range(&scalar(1)));
}

#[test]
fn range_order_minus_one_is_accepted() {
    assert!(is_in_range(&order_minus_one()));
}

#[test]
fn range_order_and_above_are_rejected() {
    assert!(!is_in_range(&CURVE_ORDER));
    assert!(!is_in_range(&[0xFFu8; 32]));
    let mut above = CURVE_ORDER;
    above[31] += 1;
    assert!(!is_in_range(&above));
}

#[test]
fn range_compares_lexicographically() {
    // smaller than the order in an early byte, larger in every later one
    let mut s = [0xFFu8; 32];
    s[15] = 0xFD;
    assert!(is_in_range(&s));
    let mut t = [0u8; 32];
    t[0] = 0x80;
    assert!(is_in_range(&t));
}

#[test]
fn level_of_trailing_one_is_159() {
    let mut a = [0u8; 20];
    a[19] = 0x01;
    assert_eq!(calculate_level(&a), 159);
}

#[test]
fn level_of_high_bit_is_zero() {
    let mut a = [0u8; 20];
    a[0] = 0x80;
    assert_eq!(calculate_level(&a), 0);
}

#[test]
fn level_of_zero_address_is_160() {
    assert_eq!(calculate_level(&[0u8; 20]), 160);
}

#[test]
fn level_counts_zero_bytes_then_bits() {
    let mut a = [0xFFu8; 20];
    a[0] = 0;
    a[1] = 0x0F;
    assert_eq!(calculate_level(&a), 12);
    let mut b = [0u8; 20];
    b[2] = 0x01;
    b[3] = 0xFF;
    assert_eq!(calculate_level(&b), 23);
}

#[test]
fn level_is_deterministic() {
    let a = hex20("000000fa11223344556677889900aabbccddeeff");
    assert_eq!(calculate_level(&a), calculate_level(&a));
    assert_eq!(calculate_level(&a), 24);
}

#[test]
fn zero_care_always_matches() {
    let addr = hex20("7e5f4552091a69125d5dfcb7b8c2659029395bdf");
    let value = [0xA5u8; 20];
    assert!(address_matches(&addr, &value, &[0u8; 20]));
    assert!(address_matches(&[0xFFu8; 20], &[0u8; 20], &[0u8; 20]));
}

#[test]
fn cared_bits_must_agree() {
    let addr = hex20("7e5f4552091a69125d5dfcb7b8c2659029395bdf");
    let mut care = [0u8; 20];
    care[0] = 0xF0;
    let mut value = [0u8; 20];
    value[0] = 0x70;
    assert!(address_matches(&addr, &value, &care));
    value[0] = 0x80;
    assert!(!address_matches(&addr, &value, &care));
    // uncared bits of the value are ignored
    value[0] = 0x7F;
    assert!(address_matches(&addr, &value, &care));
}

#[test]
fn flipping_a_cared_bit_flips_the_match() {
    let addr = hex20("7e5f4552091a69125d5dfcb7b8c2659029395bdf");
    let care = [0xFFu8; 20];
    assert!(address_matches(&addr, &addr, &care));
    for i in 0..20 {
        for k in 0..8 {
            let mut flipped = addr;
            flipped[i] ^= 1u8 << k;
            assert!(!address_matches(&flipped, &addr, &care));
            assert!(address_matches(&flipped, &flipped, &care));
            let mut back = flipped;
            back[i] ^= 1u8 << k;
            assert!(address_matches(&back, &addr, &care));
        }
    }
}

#[test]
fn address_of_scalar_one() {
    assert_eq!(pk_to_address(&scalar(1)), hex20("7e5f4552091a69125d5dfcb7b8c2659029395bdf"));
}

#[test]
fn address_of_scalar_two() {
    assert_eq!(pk_to_address(&scalar(2)), hex20("2b5ad5c4795c026514f8317c7a215e218dccd6cf"));
}

#[test]
fn derivation_is_deterministic() {
    let s = order_minus_one();
    assert_eq!(pk_to_address(&s), pk_to_address(&s));
    let t = sample_scalar().unwrap();
    assert_eq!(pk_to_address(&t), pk_to_address(&t));
}

#[test]
fn sampled_scalars_are_in_range() {
    for _ in 0..20 {
        let s = sample_scalar().unwrap();
        assert!(is_in_range(&s));
    }
}

#[test]
fn rare_key_for_scalar_one() {
    let k = rare_key_for(&scalar(1), 1).unwrap();
    assert_eq!(k.private_key, scalar(1));
    assert_eq!(k.address, hex20("7e5f4552091a69125d5dfcb7b8c2659029395bdf"));
    assert_eq!(k.level, 1);
    assert!(rare_key_for(&scalar(1), 2).is_none());
}

#[test]
fn threshold_zero_keeps_every_draw() {
    let keys = generate_rare_keys_batch(0, 7).unwrap();
    assert_eq!(keys.len(), 7);
    for k in &keys {
        assert!(is_in_range(&k.private_key));
        assert_eq!(k.address, pk_to_address(&k.private_key));
        assert_eq!(k.level, calculate_level(&k.address));
    }
}

#[test]
fn threshold_161_keeps_nothing() {
    assert!(generate_rare_keys_batch(161, 25).unwrap().is_empty());
    assert!(generate_rare_keys_batch(255, 5).unwrap().is_empty());
}

#[test]
fn empty_batch_is_empty() {
    assert!(generate_rare_keys_batch(0, 0).unwrap().is_empty());
}

#[test]
fn kept_keys_reach_the_threshold() {
    let keys = generate_rare_keys_batch(3, 200).unwrap();
    assert!(keys.len() <= 200);
    for k in &keys {
        assert!(k.level >= 3);
        assert_eq!(k.level, calculate_level(&pk_to_address(&k.private_key)));
    }
}

fn request(value: [u8; 20], care: [u8; 20], batch: u32) -> Vec<u8> {
    let mut m = Vec::new();
    m.extend_from_slice(&value);
    m.extend_from_slice(&care);
    m.extend_from_slice(&batch.to_be_bytes());
    m
}

#[test]
fn mask_of_wrong_length_is_invalid() {
    let m = request([0u8; 20], [0u8; 20], 5);
    assert_eq!(find_address_with_mask(&m[..43]), MaskSearch::InvalidInput);
    let mut longer = m.clone();
    longer.push(0);
    assert_eq!(find_address_with_mask(&longer), MaskSearch::InvalidInput);
    assert_eq!(find_address_with_mask(&[]), MaskSearch::InvalidInput);
    assert!(parse_mask(&m[..43]).is_none());
}

#[test]
fn mask_with_zero_budget_is_not_found() {
    let m = request([0u8; 20], [0u8; 20], 0);
    assert_eq!(find_address_with_mask(&m), MaskSearch::NotFound);
}

#[test]
fn mask_batch_size_is_big_endian() {
    let mut m = request([0x11u8; 20], [0x22u8; 20], 0);
    m[40] = 0x01;
    m[41] = 0x02;
    m[42] = 0x03;
    m[43] = 0x04;
    let parsed = parse_mask(&m).unwrap();
    assert_eq!(parsed.batch_size, 0x0102_0304);
    assert_eq!(parsed.value, [0x11u8; 20]);
    assert_eq!(parsed.care, [0x22u8; 20]);
    assert_eq!(parse_mask(&request([0u8; 20], [0u8; 20], 258)).unwrap().batch_size, 258);
}

#[test]
fn mask_caring_about_nothing_matches_first_draw() {
    let m = request([0x5Au8; 20], [0u8; 20], 1);
    match find_address_with_mask(&m) {
        MaskSearch::Found(p) => {
            assert!(is_in_range(&p.private_key));
            assert_eq!(p.address, pk_to_address(&p.private_key));
        }
        other => panic!("expected a match, got {:?}", other),
    }
}

#[test]
fn mask_matching_low_bits_is_found() {
    let mut care = [0u8; 20];
    care[0] = 0x03;
    let mut value = [0u8; 20];
    value[0] = 0x02;
    let mask = Mask { value, care, batch_size: 2000 };
    match search_mask(&mask) {
        MaskSearch::Found(p) => {
            assert_eq!(p.address[0] & 0x03, 0x02);
            assert_eq!(p.address, pk_to_address(&p.private_key));
        }
        other => panic!("expected a match, got {:?}", other),
    }
}

#[test]
fn impossible_mask_is_not_found() {
    // every cared bit of a full-width mask agreeing by chance is out of reach
    let m = request([0u8; 20], [0xFFu8; 20], 3);
    assert_eq!(find_address_with_mask(&m), MaskSearch::NotFound);
}

#[test]
fn check_candidate_on_scalar_one() {
    let addr = hex20("7e5f4552091a69125d5dfcb7b8c2659029395bdf");
    let care = [0xFFu8; 20];
    let p = check_candidate(&scalar(1), &addr, &care).unwrap();
    assert_eq!(p.private_key, scalar(1));
    assert_eq!(p.address, addr);
    let mut other = addr;
    other[19] ^= 0x01;
    assert!(check_candidate(&scalar(1), &other, &care).is_none());
}
