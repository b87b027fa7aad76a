use bls12_381::Scalar;
use ff::Field;
use sum_check::field::Fe;
use sum_check::sum_check::SumCheck;

fn to_scalar(x: &Fe) -> Scalar {
    Scalar::from_raw(x.to_limbs())
}

/// The limbs of the least representative of `s`.
fn limbs_of(s: &Scalar) -> [u64; 4] {
    let bytes = s.to_bytes();
    let mut limbs = [0u64; 4];
    for (i, limb) in limbs.iter_mut().enumerate() {
        let mut chunk = [0u8; 8];
        chunk.copy_from_slice(&bytes[8 * i..8 * i + 8]);
        *limb = u64::from_le_bytes(chunk);
    }
    limbs
}

/// A few elements spread over the field.
fn samples() -> Vec<Fe> {
    let mut out = vec![Fe::zero(), Fe::one(), Fe::one().neg(), Fe::from_u64(u64::MAX)];
    let mut x = Fe::from_u64(0x9e37_79b9_7f4a_7c15);
    for _ in 0..6 {
        x = x.mul(&x).add(&Fe::from_u64(0x2545_f491_4f6c_dd1d));
        out.push(x);
    }
    out
}

#[test]
fn constants_agree_with_the_field() {
    assert_eq!(Fe::zero().to_limbs(), limbs_of(&Scalar::ZERO));
    assert_eq!(Fe::one().to_limbs(), limbs_of(&Scalar::ONE));
    assert_eq!(Fe::from_u64(77).to_limbs(), limbs_of(&Scalar::from(77u64)));
    assert_eq!(Fe::from_u64(u64::MAX).to_limbs(), limbs_of(&Scalar::from(u64::MAX)));
}

#[test]
fn arithmetic_agrees_with_the_field() {
    let xs = samples();
    for a in xs.iter() {
        let sa = to_scalar(a);
        assert_eq!(limbs_of(&sa), a.to_limbs());
        assert_eq!(a.neg().to_limbs(), limbs_of(&-sa));
        for e in [0u64, 1, 2, 3, 65, u64::MAX] {
            assert_eq!(a.pow(e).to_limbs(), limbs_of(&sa.pow_vartime(&[e, 0, 0, 0])));
        }
        for b in xs.iter() {
            let sb = to_scalar(b);
            assert_eq!(a.add(b).to_limbs(), limbs_of(&(sa + sb)));
            assert_eq!(a.mul(b).to_limbs(), limbs_of(&(sa * sb)));
            assert_eq!(a == b, sa == sb);
        }
    }
}

#[test]
fn wide_bytes_agree_with_the_field() {
    let mut bytes = [0u8; 64];
    let mut state: u64 = 0x1234_5678_9abc_def0;
    for round in 0..8 {
        for b in bytes.iter_mut() {
            state = state.wrapping_mul(6364136223846793005).wrapping_add(1442695040888963407);
            *b = (state >> 56) as u8;
        }
        if round == 0 {
            bytes[32..].copy_from_slice(&[0u8; 32]);
        }
        assert_eq!(
            Fe::from_bytes_wide(&bytes).to_limbs(),
            limbs_of(&Scalar::from_bytes_wide(&bytes))
        );
    }
}

#[test]
fn sample_oracle_agrees_with_its_formula_in_the_field() {
    let xs = samples();
    for n in 0..xs.len() {
        let point = &xs[..n];
        let expected = point.iter().enumerate().fold(Scalar::ZERO, |acc, (i, val)| {
            acc + Scalar::from(i as u64) * to_scalar(val).pow_vartime(&[i as u64, 0, 0, 0])
        });
        assert_eq!(SumCheck::g(point).to_limbs(), limbs_of(&expected));
    }
}

#[test]
fn claimed_sum_agrees_with_a_sum_in_the_field() {
    let v: usize = 6;
    let mut sc = SumCheck::new();
    sc.cal_h(|x: &[Fe]| SumCheck::g(x), v).unwrap();
    let mut total = Scalar::ZERO;
    for k in 0..(1u64 << v) {
        for i in 0..v {
            if (k >> i) & 1 == 1 {
                total += Scalar::from(i as u64);
            }
        }
    }
    assert_eq!(sc.h.to_limbs(), limbs_of(&total));
    assert_eq!(sc.h, Fe::from_u64(480));
}
