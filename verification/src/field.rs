//! Elements of the scalar field of BLS12-381.
//!
//! An element is kept as the four 64-bit limbs of its least non-negative
//! representative, little end first. The arithmetic itself is done by the
//! `bls12_381` crate; the functions here state, over natural numbers, what
//! that arithmetic returns.
use bls12_381::Scalar;
use vstd::arithmetic::div_mod::lemma_small_mod;
use vstd::arithmetic::power::pow;
use vstd::prelude::*;

verus! {

/// The natural number whose base-2^64 digits are `l0` (least significant) to `l3`.
pub open spec fn limbs_value(l0: u64, l1: u64, l2: u64, l3: u64) -> nat {
    (l0 as nat) + 0x1_0000_0000_0000_0000 * ((l1 as nat) + 0x1_0000_0000_0000_0000 * ((l2 as nat)
        + 0x1_0000_0000_0000_0000 * (l3 as nat)))
}

/// The order of the field:
/// `0x73eda753299d7d483339d80809a1d80553bda402fffe5bfeffffffff00000001`.
pub open spec fn modulus() -> nat {
    limbs_value(
        0xffff_ffff_0000_0001,
        0x53bd_a402_fffe_5bfe,
        0x3339_d808_09a1_d805,
        0x73ed_a753_299d_7d48,
    )
}

/// The number that a sequence of bytes spells, least significant byte first.
pub open spec fn le_value(bytes: Seq<u8>) -> nat
    decreases bytes.len(),
{
    if bytes.len() == 0 {
        0
    } else {
        (bytes[0] as nat) + 256 * le_value(bytes.drop_first())
    }
}

/// A field element.
#[derive(Clone, Copy, Debug, PartialEq, Eq, Structural)]
pub struct Fe {
    l0: u64,
    l1: u64,
    l2: u64,
    l3: u64,
}

impl View for Fe {
    type V = nat;

    /// The representative of the element, as a natural number.
    closed spec fn view(&self) -> nat {
        limbs_value(self.l0, self.l1, self.l2, self.l3)
    }
}

impl Fe {
    /// Every element is held by its representative below the modulus, so two
    /// elements are the same exactly when their limbs are.
    #[verifier::type_invariant]
    pub open spec fn reduced(&self) -> bool {
        self@ < modulus()
    }

    /// Two values with the same view are the same value.
    pub proof fn lemma_view_injective(a: Fe, b: Fe)
        ensures
            (a@ == b@) <==> (a == b),
    {
    }

    /// The additive identity.
    pub fn zero() -> (r: Fe)
        ensures
            r@ == 0,
    {
        Fe { l0: 0, l1: 0, l2: 0, l3: 0 }
    }

    /// The multiplicative identity.
    pub fn one() -> (r: Fe)
        ensures
            r@ == 1,
    {
        Fe { l0: 1, l1: 0, l2: 0, l3: 0 }
    }

    /// The element that the integer `n` stands for.
    pub fn from_u64(n: u64) -> (r: Fe)
        ensures
            r@ == n,
    {
        Fe { l0: n, l1: 0, l2: 0, l3: 0 }
    }

    /// The element that a 512-bit integer stands for, given by its bytes,
    /// least significant first.
    pub fn from_bytes_wide(bytes: &[u8; 64]) -> (r: Fe)
        ensures
            r@ == le_value(bytes@) % modulus(),
    {
        scalar_from_bytes_wide(bytes)
    }

    /// A field element drawn at random: 512 random bits, reduced by the
    /// modulus, so that no element is noticeably likelier than another.
    /// Whatever the bits are, the result is the element that they stand for as
    /// a 512-bit integer, least significant byte first.
    /// This panics where the operating system cannot seed the generator.
    pub fn random() -> (r: Fe)
        ensures
            exists|bytes: Seq<u8>|
                bytes.len() == 64 && r@ == #[trigger] le_value(bytes) % modulus(),
    {
        let bytes = random_bytes_wide();
        let r = scalar_from_bytes_wide(&bytes);
        assert(bytes@.len() == 64 && r@ == le_value(bytes@) % modulus());
        r
    }

    /// The limbs of the representative, least significant first.
    pub fn to_limbs(&self) -> (r: [u64; 4])
        ensures
            limbs_value(r[0], r[1], r[2], r[3]) == self@,
    {
        [self.l0, self.l1, self.l2, self.l3]
    }

    /// Field addition.
    pub fn add(&self, rhs: &Fe) -> (r: Fe)
        ensures
            r@ == (self@ + rhs@) % modulus(),
    {
        scalar_add(self, rhs)
    }

    /// The additive inverse.
    pub fn neg(&self) -> (r: Fe)
        ensures
            r@ == (modulus() - self@) % (modulus() as int),
    {
        proof {
            use_type_invariant(self);
            lemma_small_mod(self@, modulus());
        }
        scalar_neg(self)
    }

    /// Field multiplication.
    pub fn mul(&self, rhs: &Fe) -> (r: Fe)
        ensures
            r@ == (self@ * rhs@) % modulus(),
    {
        scalar_mul(self, rhs)
    }

    /// The `exp`-th power; the zeroth power of every element is one.
    pub fn pow(&self, exp: u64) -> (r: Fe)
        ensures
            r@ == pow(self@ as int, exp as nat) % (modulus() as int),
    {
        scalar_pow(self, exp)
    }
}

/// `Scalar::add` of `bls12_381`, between `Scalar::from_raw` on the limbs of
/// either argument and `Scalar::to_bytes` on the sum. `from_raw` takes any
/// four limbs to the element they are congruent to, the sum is the sum in
/// the field, and `to_bytes` spells its least representative, which is
/// read back limb by limb.
#[verifier::external_body]
fn scalar_add(a: &Fe, b: &Fe) -> (r: Fe)
    ensures
        r@ == (a@ + b@) % modulus(),
{
    let x = Scalar::from_raw([a.l0, a.l1, a.l2, a.l3]);
    let y = Scalar::from_raw([b.l0, b.l1, b.l2, b.l3]);
    let t = x.add(&y).to_bytes();
    Fe {
        l0: u64::from_le_bytes(t[0..8].try_into().unwrap()),
        l1: u64::from_le_bytes(t[8..16].try_into().unwrap()),
        l2: u64::from_le_bytes(t[16..24].try_into().unwrap()),
        l3: u64::from_le_bytes(t[24..32].try_into().unwrap()),
    }
}

/// `Scalar::neg` of `bls12_381`, between `Scalar::from_raw` and
/// `Scalar::to_bytes`: the least representative of the element that, added
/// to the one `a` is congruent to, gives zero.
#[verifier::external_body]
fn scalar_neg(a: &Fe) -> (r: Fe)
    ensures
        r@ == (modulus() - a@ % modulus()) % (modulus() as int),
{
    let x = Scalar::from_raw([a.l0, a.l1, a.l2, a.l3]);
    let t = x.neg().to_bytes();
    Fe {
        l0: u64::from_le_bytes(t[0..8].try_into().unwrap()),
        l1: u64::from_le_bytes(t[8..16].try_into().unwrap()),
        l2: u64::from_le_bytes(t[16..24].try_into().unwrap()),
        l3: u64::from_le_bytes(t[24..32].try_into().unwrap()),
    }
}

/// `Scalar::mul` of `bls12_381`, between `Scalar::from_raw` and
/// `Scalar::to_bytes`: the least representative of the product in the field.
#[verifier::external_body]
fn scalar_mul(a: &Fe, b: &Fe) -> (r: Fe)
    ensures
        r@ == (a@ * b@) % modulus(),
{
    let x = Scalar::from_raw([a.l0, a.l1, a.l2, a.l3]);
    let y = Scalar::from_raw([b.l0, b.l1, b.l2, b.l3]);
    let t = x.mul(&y).to_bytes();
    Fe {
        l0: u64::from_le_bytes(t[0..8].try_into().unwrap()),
        l1: u64::from_le_bytes(t[8..16].try_into().unwrap()),
        l2: u64::from_le_bytes(t[16..24].try_into().unwrap()),
        l3: u64::from_le_bytes(t[24..32].try_into().unwrap()),
    }
}

/// `Scalar::pow_vartime` of `bls12_381` with the exponent `exp` in the lowest
/// of its four exponent limbs, between `Scalar::from_raw` and
/// `Scalar::to_bytes`: square-and-multiply from one, so the least
/// representative of the `exp`-th power in the field.
#[verifier::external_body]
fn scalar_pow(a: &Fe, exp: u64) -> (r: Fe)
    ensures
        r@ == pow(a@ as int, exp as nat) % (modulus() as int),
{
    let x = Scalar::from_raw([a.l0, a.l1, a.l2, a.l3]);
    let t = x.pow_vartime(&[exp, 0, 0, 0]).to_bytes();
    Fe {
        l0: u64::from_le_bytes(t[0..8].try_into().unwrap()),
        l1: u64::from_le_bytes(t[8..16].try_into().unwrap()),
        l2: u64::from_le_bytes(t[16..24].try_into().unwrap()),
        l3: u64::from_le_bytes(t[24..32].try_into().unwrap()),
    }
}

/// `Scalar::from_bytes_wide` of `bls12_381`, followed by `Scalar::to_bytes`:
/// the 512-bit little-endian integer, reduced by the modulus.
#[verifier::external_body]
fn scalar_from_bytes_wide(bytes: &[u8; 64]) -> (r: Fe)
    ensures
        r@ == le_value(bytes@) % modulus(),
{
    let t = Scalar::from_bytes_wide(bytes).to_bytes();
    Fe {
        l0: u64::from_le_bytes(t[0..8].try_into().unwrap()),
        l1: u64::from_le_bytes(t[8..16].try_into().unwrap()),
        l2: u64::from_le_bytes(t[16..24].try_into().unwrap()),
        l3: u64::from_le_bytes(t[24..32].try_into().unwrap()),
    }
}

/// `rand::fill` of `rand` on a buffer of 64 bytes, which draws them from the
/// generator of the calling thread. Nothing is claimed of the bytes. The
/// first call on a thread seeds its generator from the operating system, and
/// panics if that fails.
#[verifier::external_body]
fn random_bytes_wide() -> [u8; 64] {
    let mut bytes = [0u8; 64];
    rand::fill(&mut bytes[..]);
    bytes
}

} // verus!
