use sum_check::field::Fe;

/// The element `-1`, the largest representative.
fn minus_one() -> Fe {
    Fe::one().neg()
}

#[test]
fn constants_have_their_limbs() {
    assert_eq!(Fe::zero().to_limbs(), [0, 0, 0, 0]);
    assert_eq!(Fe::one().to_limbs(), [1, 0, 0, 0]);
    assert_eq!(Fe::from_u64(u64::MAX).to_limbs(), [u64::MAX, 0, 0, 0]);
    assert_eq!(Fe::from_u64(0), Fe::zero());
    assert_eq!(Fe::from_u64(1), Fe::one());
}

#[test]
fn addition_of_small_numbers() {
    assert_eq!(Fe::from_u64(3).add(&Fe::from_u64(4)), Fe::from_u64(7));
    assert_eq!(Fe::from_u64(3).add(&Fe::zero()), Fe::from_u64(3));
    assert_eq!(
        Fe::from_u64(u64::MAX).add(&Fe::from_u64(u64::MAX)).to_limbs(),
        [0xffff_ffff_ffff_fffe, 1, 0, 0]
    );
}

#[test]
fn addition_wraps_at_the_modulus() {
    assert_eq!(minus_one().add(&Fe::one()), Fe::zero());
    assert_eq!(minus_one().add(&Fe::from_u64(2)), Fe::one());
    assert_eq!(
        minus_one().add(&minus_one()).to_limbs(),
        [
            0xffff_fffe_ffff_ffff,
            0x53bd_a402_fffe_5bfe,
            0x3339_d808_09a1_d805,
            0x73ed_a753_299d_7d48
        ]
    );
}

#[test]
fn negation() {
    assert_eq!(Fe::zero().neg(), Fe::zero());
    assert_eq!(
        Fe::one().neg().to_limbs(),
        [
            0xffff_ffff_0000_0000,
            0x53bd_a402_fffe_5bfe,
            0x3339_d808_09a1_d805,
            0x73ed_a753_299d_7d48
        ]
    );
    assert_eq!(
        Fe::from_u64(5).neg().to_limbs(),
        [
            0xffff_fffe_ffff_fffc,
            0x53bd_a402_fffe_5bfe,
            0x3339_d808_09a1_d805,
            0x73ed_a753_299d_7d48
        ]
    );
    assert_eq!(Fe::from_u64(5).neg().neg(), Fe::from_u64(5));
    assert_eq!(Fe::from_u64(5).neg().add(&Fe::from_u64(5)), Fe::zero());
}

#[test]
fn multiplication() {
    assert_eq!(Fe::from_u64(3).mul(&Fe::from_u64(4)), Fe::from_u64(12));
    assert_eq!(Fe::from_u64(3).mul(&Fe::zero()), Fe::zero());
    assert_eq!(Fe::from_u64(3).mul(&Fe::one()), Fe::from_u64(3));
    assert_eq!(
        Fe::from_u64(u64::MAX).mul(&Fe::from_u64(u64::MAX)).to_limbs(),
        [1, 0xffff_ffff_ffff_fffe, 0, 0]
    );
    assert_eq!(minus_one().mul(&minus_one()), Fe::one());
    assert_eq!(minus_one().mul(&Fe::from_u64(5)), Fe::from_u64(5).neg());
}

#[test]
fn powers() {
    assert_eq!(Fe::from_u64(2).pow(10), Fe::from_u64(1024));
    assert_eq!(Fe::from_u64(7).pow(1), Fe::from_u64(7));
    assert_eq!(Fe::from_u64(7).pow(0), Fe::one());
    assert_eq!(Fe::zero().pow(0), Fe::one());
    assert_eq!(Fe::zero().pow(3), Fe::zero());
    assert_eq!(Fe::from_u64(2).pow(64).to_limbs(), [0, 1, 0, 0]);
    assert_eq!(
        Fe::from_u64(3).pow(200).to_limbs(),
        [
            0x08d6_f2d2_b7d0_766b,
            0xd345_29c5_1d9c_c6da,
            0xffce_4d8c_31c3_241f,
            0x6882_8c58_ef33_6573
        ]
    );
    assert_eq!(minus_one().pow(2), Fe::one());
    assert_eq!(minus_one().pow(3), minus_one());
}

#[test]
fn wide_bytes_are_reduced() {
    let mut bytes = [0u8; 64];
    assert_eq!(Fe::from_bytes_wide(&bytes), Fe::zero());
    bytes[0] = 5;
    assert_eq!(Fe::from_bytes_wide(&bytes), Fe::from_u64(5));
    bytes[1] = 1;
    assert_eq!(Fe::from_bytes_wide(&bytes), Fe::from_u64(261));
    assert_eq!(
        Fe::from_bytes_wide(&[0xff; 64]).to_limbs(),
        [
            0xc999_e990_f3f2_9c6c,
            0x2b6c_edcb_8792_5c23,
            0x05d3_1496_7254_398f,
            0x0748_d9d9_9f59_ff11
        ]
    );
    let mut ramp = [0u8; 64];
    for (i, b) in ramp.iter_mut().enumerate() {
        *b = i as u8;
    }
    assert_eq!(
        Fe::from_bytes_wide(&ramp).to_limbs(),
        [
            0x72dc_c0a3_e60d_eda6,
            0x70b8_0bad_0487_accd,
            0xc544_b32c_e71a_c6bb,
            0x6c18_6743_eacf_1fbd
        ]
    );
}

#[test]
fn the_modulus_itself_is_zero() {
    let mut bytes = [0u8; 64];
    let q: [u64; 4] = [
        0xffff_ffff_0000_0001,
        0x53bd_a402_fffe_5bfe,
        0x3339_d808_09a1_d805,
        0x73ed_a753_299d_7d48,
    ];
    for (i, limb) in q.iter().enumerate() {
        bytes[8 * i..8 * i + 8].copy_from_slice(&limb.to_le_bytes());
    }
    assert_eq!(Fe::from_bytes_wide(&bytes), Fe::zero());
    bytes[0] = 0;
    assert_eq!(Fe::from_bytes_wide(&bytes), minus_one());
}

#[test]
fn random_elements_differ() {
    let a = Fe::random();
    let b = Fe::random();
    let c = Fe::random();
    assert!(a != b || b != c);
    assert_eq!(a.add(&a.neg()), Fe::zero());
}

#[test]
fn equality_is_equality_of_elements() {
    let a = Fe::from_u64(9).mul(&Fe::from_u64(9));
    let b = Fe::from_u64(80).add(&Fe::one());
    assert_eq!(a, b);
    assert_ne!(a, Fe::from_u64(80));
    let c = a;
    assert_eq!(c.clone(), a);
}
