use ark_ff::{BigInteger, PrimeField};
use vstd::prelude::*;

verus! {

/// The order of the base field (the BLS12-381 scalar field).
pub open spec fn base_order() -> nat {
    154095187621958656428822154526901524485nat * 0x1_0000_0000_0000_0000_0000_0000_0000_0000nat
        + 111310594309268602877181240610339684353nat
}

/// The order of the prime-order subgroup of the curve, the scalar field.
pub open spec fn scalar_order() -> nat {
    19261898452744832053602769315862690560nat * 0x1_0000_0000_0000_0000_0000_0000_0000_0000nat
        + 221192506920607668564158609621008198839nat
}

/// The unsigned integer that bytes encode, least significant byte first.
pub open spec fn le_nat(s: Seq<u8>) -> nat
    decreases s.len(),
{
    if s.len() == 0 {
        0
    } else {
        s[0] as nat + 256 * le_nat(s.subrange(1, s.len() as int))
    }
}

/// The unsigned integer that bytes encode, most significant byte first.
pub open spec fn be_nat(s: Seq<u8>) -> nat
    decreases s.len(),
{
    if s.len() == 0 {
        0
    } else {
        be_nat(s.drop_last()) * 256 + s.last() as nat
    }
}

/// The bytes of `s` in reverse order.
pub open spec fn reversed(s: Seq<u8>) -> Seq<u8> {
    Seq::new(s.len(), |i: int| s[s.len() - 1 - i])
}

/// The `n`-byte little-endian encoding of `v` (its value modulo `256^n`).
pub open spec fn le_bytes(v: nat, n: nat) -> Seq<u8>
    decreases n,
{
    if n == 0 {
        Seq::empty()
    } else {
        seq![(v % 256) as u8] + le_bytes(v / 256, (n - 1) as nat)
    }
}

/// The canonical 32-byte big-endian encoding of `v`.
pub open spec fn be32(v: nat) -> Seq<u8> {
    reversed(le_bytes(v, 32))
}

/// Bytes are determined by the integer they encode and their length.
pub proof fn lemma_le_bytes_of_le_nat(b: Seq<u8>)
    ensures
        b == le_bytes(le_nat(b), b.len()),
    decreases b.len(),
{
    if b.len() > 0 {
        let rest = b.subrange(1, b.len() as int);
        lemma_le_bytes_of_le_nat(rest);
        let v = le_nat(b);
        assert(v == b[0] as nat + 256 * le_nat(rest));
        assert(v % 256 == b[0] as nat && v / 256 == le_nat(rest)) by (nonlinear_arith)
            requires
                v == b[0] as nat + 256 * le_nat(rest),
                b[0] < 256,
        ;
        assert(((v % 256) as u8) == b[0]);
        assert(b =~= seq![b[0]] + rest);
    }
}

/// Two byte strings of one length that encode the same integer are equal.
pub proof fn lemma_le_nat_injective(a: Seq<u8>, b: Seq<u8>)
    requires
        a.len() == b.len(),
        le_nat(a) == le_nat(b),
    ensures
        a == b,
{
    lemma_le_bytes_of_le_nat(a);
    lemma_le_bytes_of_le_nat(b);
}

/// `256^n`.
pub open spec fn pow256(n: nat) -> nat
    decreases n,
{
    if n == 0 {
        1
    } else {
        256 * pow256((n - 1) as nat)
    }
}

/// The parity of an integer is that of its lowest byte.
pub proof fn lemma_le_nat_parity(b: Seq<u8>)
    requires
        b.len() > 0,
    ensures
        le_nat(b) % 2 == (b[0] as nat) % 2,
{
    let rest = le_nat(b.subrange(1, b.len() as int));
    assert((b[0] as nat + 256 * rest) % 2 == (b[0] as nat) % 2) by (nonlinear_arith);
}

/// The last byte weighs `256^(n-1)`.
pub proof fn lemma_le_nat_last(b: Seq<u8>)
    requires
        b.len() > 0,
    ensures
        le_nat(b) >= (b.last() as nat) * pow256((b.len() - 1) as nat),
    decreases b.len(),
{
    if b.len() > 1 {
        let rest = b.subrange(1, b.len() as int);
        lemma_le_nat_last(rest);
        assert(rest.last() == b.last());
        let p = pow256((rest.len() - 1) as nat);
        assert(pow256((b.len() - 1) as nat) == 256 * p);
        assert(le_nat(b) >= 256 * le_nat(rest));
        assert(256 * le_nat(rest) >= 256 * ((b.last() as nat) * p)) by (nonlinear_arith)
            requires
                le_nat(rest) >= (b.last() as nat) * p,
        ;
        assert((b.last() as nat) * (256 * p) == 256 * ((b.last() as nat) * p)) by (nonlinear_arith);
        assert(le_nat(b) >= (b.last() as nat) * (256 * p));
    } else {
        assert(pow256(0) == 1);
        assert(le_nat(b.subrange(1, 1)) == 0);
        assert(b.last() == b[0]);
        assert(le_nat(b) == b[0] as nat);
        assert((b.last() as nat) * 1 == b.last() as nat);
    }
}

/// An integer below `2^255` leaves the top bit of its 32-byte encoding clear.
pub proof fn lemma_top_bit_clear(b: Seq<u8>)
    requires
        b.len() == 32,
        le_nat(b) < base_order(),
    ensures
        b[31] < 128,
{
    lemma_le_nat_last(b);
    reveal_with_fuel(pow256, 32);
    let p = pow256(31);
    assert(p == 0x1_0000_0000_0000_0000_0000_0000_0000_0000nat * 0x1_0000_0000_0000_0000_0000_0000_0000_00nat);
    if b[31] >= 128 {
        assert((b[31] as nat) * p >= 128 * p) by (nonlinear_arith)
            requires
                b[31] >= 128,
        ;
    }
}

/// An element of the base field, held as its canonical 32-byte little-endian encoding.
#[derive(Clone, Copy, Debug, PartialEq, Eq, Hash)]
pub struct BaseElem {
    pub bytes: [u8; 32],
}

/// An element of the scalar field, held as its canonical 32-byte little-endian encoding.
#[derive(Clone, Copy, Debug, PartialEq, Eq, Hash)]
pub struct Scalar {
    pub bytes: [u8; 32],
}

impl BaseElem {
    pub open spec fn value(&self) -> nat {
        le_nat(self.bytes@)
    }

    /// The encoding is canonical: the value is below the base-field order.
    pub open spec fn wf(&self) -> bool {
        self.value() < base_order()
    }

    /// Reduces little-endian bytes modulo the base-field order.
    pub fn from_le_bytes_mod_order(b: &[u8]) -> (r: BaseElem)
        ensures
            r.wf(),
            r.value() == le_nat(b@) % base_order(),
    {
        fq_from_le_bytes_mod_order(b)
    }

    /// Reduces big-endian bytes modulo the base-field order.
    pub fn from_be_bytes_mod_order(b: &[u8]) -> (r: BaseElem)
        ensures
            r.wf(),
            r.value() == be_nat(b@) % base_order(),
    {
        fq_from_be_bytes_mod_order(b)
    }

    /// The canonical big-endian encoding, 32 bytes.
    pub fn to_bytes_be(&self) -> (r: Vec<u8>)
        ensures
            r@ == be32(self.value()),
    {
        proof {
            lemma_le_bytes_of_le_nat(self.bytes@);
        }
        reverse_bytes(&self.bytes)
    }
}

impl Scalar {
    pub open spec fn value(&self) -> nat {
        le_nat(self.bytes@)
    }

    /// The encoding is canonical: the value is below the scalar-field order.
    pub open spec fn wf(&self) -> bool {
        self.value() < scalar_order()
    }

    /// Reduces little-endian bytes modulo the scalar-field order.
    pub fn from_le_bytes_mod_order(b: &[u8]) -> (r: Scalar)
        ensures
            r.wf(),
            r.value() == le_nat(b@) % scalar_order(),
    {
        fr_from_le_bytes_mod_order(b)
    }

    /// Reduces big-endian bytes modulo the scalar-field order.
    pub fn from_be_bytes_mod_order(b: &[u8]) -> (r: Scalar)
        ensures
            r.wf(),
            r.value() == be_nat(b@) % scalar_order(),
    {
        fr_from_be_bytes_mod_order(b)
    }

    /// The canonical big-endian encoding, 32 bytes.
    pub fn to_bytes_be(&self) -> (r: Vec<u8>)
        ensures
            r@ == be32(self.value()),
    {
        proof {
            lemma_le_bytes_of_le_nat(self.bytes@);
        }
        reverse_bytes(&self.bytes)
    }

    /// Field addition.
    pub fn add(&self, o: &Scalar) -> (r: Scalar)
        requires
            self.wf(),
            o.wf(),
        ensures
            r.wf(),
            r.value() == (self.value() + o.value()) % scalar_order(),
    {
        fr_add(&self.bytes, &o.bytes)
    }

    /// Field multiplication.
    pub fn mul(&self, o: &Scalar) -> (r: Scalar)
        requires
            self.wf(),
            o.wf(),
        ensures
            r.wf(),
            r.value() == (self.value() * o.value()) % scalar_order(),
    {
        fr_mul(&self.bytes, &o.bytes)
    }
}

/// The bytes of an array in reverse order.
pub fn reverse_bytes(b: &[u8; 32]) -> (r: Vec<u8>)
    ensures
        r@ == reversed(b@),
{
    let mut r: Vec<u8> = Vec::new();
    let mut i: usize = 32;
    while i > 0
        invariant
            i <= 32,
            r@.len() == 32 - i,
            forall|j: int| 0 <= j < r@.len() ==> r@[j] == b@[31 - j],
        decreases i,
    {
        i = i - 1;
        r.push(b[i]);
    }
    assert(r@ =~= reversed(b@));
    r
}

/// Whether 32 little-endian bytes encode an integer below the scalar-field order.
///
/// Relies on num_bigint's `BigUint::from_bytes_le` and the ordering of `BigUint`,
/// compared with ark_ff's `MODULUS` of the scalar field.
#[verifier::external_body]
pub fn below_scalar_order(b: &[u8; 32]) -> (r: bool)
    ensures
        r == (le_nat(b@) < scalar_order()),
{
    let modulus: num_bigint::BigUint = ark_ed_on_bls12_381::Fr::MODULUS.into();
    num_bigint::BigUint::from_bytes_le(b) < modulus
}

/// Whether 32 little-endian bytes encode an integer below the base-field order.
///
/// Relies on num_bigint's `BigUint::from_bytes_le` and the ordering of `BigUint`,
/// compared with ark_ff's `MODULUS` of the base field.
#[verifier::external_body]
pub fn below_base_order(b: &[u8; 32]) -> (r: bool)
    ensures
        r == (le_nat(b@) < base_order()),
{
    let modulus: num_bigint::BigUint = ark_ed_on_bls12_381::Fq::MODULUS.into();
    num_bigint::BigUint::from_bytes_le(b) < modulus
}

/// Relies on ark_ff's `PrimeField::from_le_bytes_mod_order` for the base field,
/// and on `BigInteger::to_bytes_le` giving the canonical 32-byte encoding.
#[verifier::external_body]
fn fq_from_le_bytes_mod_order(b: &[u8]) -> (r: BaseElem)
    ensures
        le_nat(r.bytes@) == le_nat(b@) % base_order(),
{
    let f = ark_ed_on_bls12_381::Fq::from_le_bytes_mod_order(b);
    BaseElem { bytes: f.into_bigint().to_bytes_le().try_into().unwrap() }
}

/// Relies on ark_ff's `PrimeField::from_be_bytes_mod_order` for the base field,
/// and on `BigInteger::to_bytes_le` giving the canonical 32-byte encoding.
#[verifier::external_body]
fn fq_from_be_bytes_mod_order(b: &[u8]) -> (r: BaseElem)
    ensures
        le_nat(r.bytes@) == be_nat(b@) % base_order(),
{
    let f = ark_ed_on_bls12_381::Fq::from_be_bytes_mod_order(b);
    BaseElem { bytes: f.into_bigint().to_bytes_le().try_into().unwrap() }
}

/// Relies on ark_ff's `PrimeField::from_le_bytes_mod_order` for the scalar field,
/// and on `BigInteger::to_bytes_le` giving the canonical 32-byte encoding.
#[verifier::external_body]
fn fr_from_le_bytes_mod_order(b: &[u8]) -> (r: Scalar)
    ensures
        le_nat(r.bytes@) == le_nat(b@) % scalar_order(),
{
    let f = ark_ed_on_bls12_381::Fr::from_le_bytes_mod_order(b);
    Scalar { bytes: f.into_bigint().to_bytes_le().try_into().unwrap() }
}

/// Relies on ark_ff's `PrimeField::from_be_bytes_mod_order` for the scalar field,
/// and on `BigInteger::to_bytes_le` giving the canonical 32-byte encoding.
#[verifier::external_body]
fn fr_from_be_bytes_mod_order(b: &[u8]) -> (r: Scalar)
    ensures
        le_nat(r.bytes@) == be_nat(b@) % scalar_order(),
{
    let f = ark_ed_on_bls12_381::Fr::from_be_bytes_mod_order(b);
    Scalar { bytes: f.into_bigint().to_bytes_le().try_into().unwrap() }
}

/// Relies on ark_ff's addition in the scalar field (`Add` of `Fp`).
#[verifier::external_body]
fn fr_add(a: &[u8; 32], b: &[u8; 32]) -> (r: Scalar)
    requires
        le_nat(a@) < scalar_order(),
        le_nat(b@) < scalar_order(),
    ensures
        le_nat(r.bytes@) == (le_nat(a@) + le_nat(b@)) % scalar_order(),
{
    let s = ark_ed_on_bls12_381::Fr::from_le_bytes_mod_order(a)
        + ark_ed_on_bls12_381::Fr::from_le_bytes_mod_order(b);
    Scalar { bytes: s.into_bigint().to_bytes_le().try_into().unwrap() }
}

/// Relies on ark_ff's multiplication in the scalar field (`Mul` of `Fp`).
#[verifier::external_body]
fn fr_mul(a: &[u8; 32], b: &[u8; 32]) -> (r: Scalar)
    requires
        le_nat(a@) < scalar_order(),
        le_nat(b@) < scalar_order(),
    ensures
        le_nat(r.bytes@) == (le_nat(a@) * le_nat(b@)) % scalar_order(),
{
    let s = ark_ed_on_bls12_381::Fr::from_le_bytes_mod_order(a)
        * ark_ed_on_bls12_381::Fr::from_le_bytes_mod_order(b);
    Scalar { bytes: s.into_bigint().to_bytes_le().try_into().unwrap() }
}

} // verus!
