use curve25519_dalek::scalar::clamp_integer;
use xeddsa::scalar::Scalar;
use xeddsa::xeddsa::{key_pair_from_point, XEdDSA};

fn bytes32(hex_digits: &str) -> [u8; 32] {
    hex::decode(hex_digits).unwrap().try_into().unwrap()
}

#[test]
fn key_pair_keeps_a_scalar_whose_point_has_sign_zero() {
    let engine = XEdDSA::new();
    let sk = bytes32("dbc1b4c900ffe48d575b5da5c638040125f65db0fe3e24494b76ea986457d986");
    let clamped = clamp_integer(sk);
    assert_eq!(
        hex::encode(clamped),
        "d8c1b4c900ffe48d575b5da5c638040125f65db0fe3e24494b76ea986457d946"
    );
    let (ed_pk, ed_sk) = engine.calculate_key_pair(Scalar::from_bits(clamped));
    assert_eq!(
        hex::encode(ed_pk),
        "769bddd43c08c1e6f73fa3c2ae820f51b171bfe4bc18c602955c642d9807656f"
    );
    assert_eq!(ed_sk, clamped);
}

#[test]
fn key_pair_negates_a_scalar_whose_point_has_sign_one() {
    let engine = XEdDSA::new();
    let sk = bytes32("4bf5122f344554c53bde2ebb8cd2b7e3d1600ad631c385a5d7cce23c7785459a");
    let clamped = clamp_integer(sk);
    let (ed_pk, ed_sk) = engine.calculate_key_pair(Scalar::from_bits(clamped));
    // The point itself is 6c22...bcc1: the public key is that with the top bit cleared.
    assert_eq!(
        hex::encode(ed_pk),
        "6c220e25e18db46d37085ba985c64b704bde117491237c8c29a675d963eebc41"
    );
    assert_eq!(
        hex::encode(ed_sk),
        "4602b0fe690d1a4bcace9e16ab0882992e9ff529ce3c7a5a28331dc3887aba05"
    );
}

#[test]
fn key_pair_of_the_test_secret() {
    let engine = XEdDSA::new();
    let mut sk = [0u8; 32];
    for i in 0..32 {
        sk[i] = i as u8;
    }
    let (ed_pk, ed_sk) = engine.calculate_key_pair(Scalar::from_bits(clamp_integer(sk)));
    assert_eq!(
        hex::encode(ed_pk),
        "1ac105ea144728da5ebea01e5ee75d70584f1f3cd448b1ec7c2bddda3fbd1f0e"
    );
    assert_eq!(
        hex::encode(ed_sk),
        "000102030405060708090a0b0c0d0e0f101112131415161718191a1b1c1d1e5f"
    );
}

#[test]
fn secret_key_of_the_pair_gives_the_public_key_of_the_pair() {
    let engine = XEdDSA::new();
    for seed in 0..16u8 {
        let mut sk = [seed; 32];
        sk[1] = seed.wrapping_mul(37);
        sk[17] = seed.wrapping_add(101);
        let (ed_pk, ed_sk) = engine.calculate_key_pair(Scalar::from_bits(clamp_integer(sk)));
        assert_eq!(ed_pk[31] & 0x80, 0);
        let again = engine.calculate_key_pair(Scalar::from_bits(ed_sk));
        assert_eq!(again.0, ed_pk);
        assert_eq!(again.1, ed_sk);
    }
}

#[test]
fn key_pair_of_small_scalars() {
    let engine = XEdDSA::new();
    let mut one = [0u8; 32];
    one[0] = 1;
    let (ed_pk, ed_sk) = engine.calculate_key_pair(Scalar::from_bits(one));
    assert_eq!(
        hex::encode(ed_pk),
        "5866666666666666666666666666666666666666666666666666666666666666"
    );
    assert_eq!(ed_sk, one);

    // (L - 1) * B is -B, of sign 1: the pair is that of the scalar 1.
    let minus_one = bytes32("ecd3f55c1a631258d69cf7a2def9de1400000000000000000000000000000010");
    let (ed_pk, ed_sk) = engine.calculate_key_pair(Scalar::from_bits(minus_one));
    assert_eq!(
        hex::encode(ed_pk),
        "5866666666666666666666666666666666666666666666666666666666666666"
    );
    assert_eq!(ed_sk, one);

    let mut two = [0u8; 32];
    two[0] = 2;
    let (ed_pk, _) = engine.calculate_key_pair(Scalar::from_bits(two));
    assert_eq!(
        hex::encode(ed_pk),
        "c9a3f86aae465f0e56513864510f3997561fa2c9e85ea21dc2292309f3cd6022"
    );
}

#[test]
fn key_pair_from_a_point_of_sign_zero_keeps_point_and_scalar() {
    let mut point = [0x11u8; 32];
    point[31] = 0x7f;
    let mut bytes = [0u8; 32];
    bytes[0] = 5;
    let (ed_pk, ed_sk) = key_pair_from_point(point, &Scalar::from_bits(bytes));
    assert_eq!(ed_pk, point);
    assert_eq!(ed_sk, bytes);
}

#[test]
fn key_pair_from_a_point_of_sign_one_clears_the_sign_and_negates() {
    let mut point = [0x11u8; 32];
    point[31] = 0x85;
    let mut bytes = [0u8; 32];
    bytes[0] = 5;
    let (ed_pk, ed_sk) = key_pair_from_point(point, &Scalar::from_bits(bytes));
    let mut cleared = point;
    cleared[31] = 0x05;
    assert_eq!(ed_pk, cleared);
    // L - 5
    assert_eq!(
        hex::encode(ed_sk),
        "e8d3f55c1a631258d69cf7a2def9de1400000000000000000000000000000010"
    );

    // An unreduced scalar is reduced before it is negated.
    let clamped = clamp_integer([0xff; 32]);
    let (_, ed_sk) = key_pair_from_point(point, &Scalar::from_bits(clamped));
    assert_eq!(
        hex::encode(ed_sk),
        "709faee7d21893c0b2e6bc17f5cef7a600000000000000000000000000000000"
    );
}
