use xeddsa::uint::U256;

fn bytes32(hex_digits: &str) -> [u8; 32] {
    hex::decode(hex_digits).unwrap().try_into().unwrap()
}

#[test]
fn bytes_go_in_and_out_unchanged() {
    let mut bytes = [0u8; 32];
    for i in 0..32 {
        bytes[i] = 3 * i as u8 + 1;
    }
    assert_eq!(U256::from_le_bytes(bytes).to_le_bytes(), bytes);
}

#[test]
fn u128_fills_the_low_sixteen_bytes() {
    assert_eq!(U256::from_u128(0).to_le_bytes(), [0u8; 32]);
    let mut expected = [0u8; 32];
    expected[0] = 19;
    assert_eq!(U256::from_u128(19).to_le_bytes(), expected);
    assert_eq!(
        hex::encode(U256::from_u128(0x0102_0304_0506_0708_090a_0b0c_0d0e_0f10).to_le_bytes()),
        "100f0e0d0c0b0a09080706050403020100000000000000000000000000000000"
    );
    assert_eq!(
        hex::encode(U256::from_u128(u128::MAX).to_le_bytes()),
        "ffffffffffffffffffffffffffffffff00000000000000000000000000000000"
    );
}

#[test]
fn max_value_is_all_ones() {
    assert_eq!(U256::max_value().to_le_bytes(), [0xff; 32]);
}

#[test]
fn power_of_two_sets_one_bit() {
    let mut expected = [0u8; 32];
    expected[0] = 1;
    assert_eq!(U256::pow2(0).to_le_bytes(), expected);
    let mut expected = [0u8; 32];
    expected[0] = 0x80;
    assert_eq!(U256::pow2(7).to_le_bytes(), expected);
    let mut expected = [0u8; 32];
    expected[1] = 1;
    assert_eq!(U256::pow2(8).to_le_bytes(), expected);
    let mut expected = [0u8; 32];
    expected[31] = 0x20;
    assert_eq!(U256::pow2(253).to_le_bytes(), expected);
    let mut expected = [0u8; 32];
    expected[31] = 0x80;
    assert_eq!(U256::pow2(255).to_le_bytes(), expected);
    assert_eq!(U256::pow2(100).to_le_bytes(), U256::from_u128(1 << 100).to_le_bytes());
}

#[test]
fn difference_borrows_across_bytes() {
    assert_eq!(
        hex::encode(U256::pow2(255).sub(&U256::from_u128(19)).to_le_bytes()),
        "edffffffffffffffffffffffffffffffffffffffffffffffffffffffffffff7f"
    );
    assert_eq!(
        U256::from_u128(1000).sub(&U256::from_u128(1)).to_le_bytes(),
        U256::from_u128(999).to_le_bytes()
    );
    assert_eq!(
        U256::from_u128(256).sub(&U256::from_u128(1)).to_le_bytes(),
        U256::from_u128(255).to_le_bytes()
    );
    let x = U256::from_le_bytes(bytes32(
        "38821d15ce3ad0674ae755fb33406ad3ddf56ec79dcbb8b50ddf7598cb538e1f",
    ));
    assert_eq!(x.sub(&x).to_le_bytes(), [0u8; 32]);
    assert_eq!(x.sub(&U256::from_u128(0)).to_le_bytes(), x.to_le_bytes());
    assert_eq!(
        hex::encode(U256::max_value().sub(&x).to_le_bytes()),
        "c77de2ea31c52f98b518aa04ccbf952c220a91386234474af2208a6734ac71e0"
    );
}

#[test]
fn order_goes_by_the_most_significant_byte_that_differs() {
    let five = U256::from_u128(5);
    let seven = U256::from_u128(7);
    assert!(seven.ge(&five));
    assert!(!five.ge(&seven));
    assert!(five.ge(&five));
    assert!(U256::max_value().ge(&U256::pow2(255)));
    assert!(!U256::pow2(253).ge(&U256::pow2(255)));

    // A larger low byte does not outweigh a larger high byte.
    let mut low = [0u8; 32];
    low[0] = 0xff;
    let mut high = [0u8; 32];
    high[31] = 1;
    assert!(U256::from_le_bytes(high).ge(&U256::from_le_bytes(low)));
    assert!(!U256::from_le_bytes(low).ge(&U256::from_le_bytes(high)));

    let mut a = [0x55u8; 32];
    let b = [0x55u8; 32];
    a[13] = 0x54;
    assert!(!U256::from_le_bytes(a).ge(&U256::from_le_bytes(b)));
    assert!(U256::from_le_bytes(b).ge(&U256::from_le_bytes(a)));
}
