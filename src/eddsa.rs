use crate::curve::{
    generator_mul, generator_mul_of, identity, is_identity, is_on_curve, on_curve, point_double,
    point_double_of, point_mul, point_mul_of, point_sub, point_sub_of, Point,
};
use crate::field::{
    base_order, be32, be_nat, le_nat, lemma_le_nat_injective, scalar_order, below_scalar_order,
    BaseElem, Scalar,
};
use vstd::prelude::*;

verus! {

/// The first 64 bytes of the BLAKE3 extendable output for an input.
pub uninterp spec fn blake3_xof64(input: Seq<u8>) -> Seq<u8>;

/// Relies on blake3's `Hasher::update` and `Hasher::finalize_xof`: the first
/// 64 bytes of the extendable output, a function of the input alone.
#[verifier::external_body]
fn blake3_expand(input: &[u8]) -> (r: [u8; 64])
    ensures
        r@ == blake3_xof64(input@),
{
    let mut hasher = blake3::Hasher::new();
    hasher.update(input);
    let mut out = [0u8; 64];
    hasher.finalize_xof().fill(&mut out);
    out
}

/// The domain-separation tag of nonce derivation, "TokamakAuth-EDDSA-NONCE-v1"
/// with non-breaking hyphens, as UTF-8.
pub open spec fn dst_nonce_seq() -> Seq<u8> {
    seq![
        0x54u8, 0x6f, 0x6b, 0x61, 0x6d, 0x61, 0x6b, 0x41, 0x75, 0x74, 0x68, 0xe2, 0x80, 0x91,
        0x45, 0x44, 0x44, 0x53, 0x41, 0xe2, 0x80, 0x91, 0x4e, 0x4f, 0x4e, 0x43, 0x45, 0xe2,
        0x80, 0x91, 0x76, 0x31,
    ]
}

/// The tag reduced into the base field.
pub open spec fn dst_nonce_value() -> nat {
    be_nat(dst_nonce_seq()) % base_order()
}

/// Clamping: clear the three low bits, clear the top bit, set the second-highest bit.
pub open spec fn clamp(b: Seq<u8>) -> Seq<u8> {
    b.update(0, b[0] & 0xf8u8).update(31, (b[31] & 0x7fu8) | 0x40u8)
}

/// The signing scalar of a seed: its clamped low expansion half, reduced.
pub open spec fn signing_scalar_of(seed: Seq<u8>) -> nat {
    le_nat(clamp(blake3_xof64(seed).subrange(0, 32))) % scalar_order()
}

/// The nonce seed of a seed: its high expansion half, reduced.
pub open spec fn nonce_seed_of(seed: Seq<u8>) -> nat {
    le_nat(blake3_xof64(seed).subrange(32, 64)) % scalar_order()
}

/// The public point of a seed: `signing_scalar * G`.
pub open spec fn public_of(seed: Seq<u8>) -> (nat, nat) {
    generator_mul_of(signing_scalar_of(seed))
}

/// What nonce derivation hashes: tag, nonce seed and message, each big-endian.
pub open spec fn nonce_input(nonce_seed: nat, message: nat) -> Seq<u8> {
    be32(dst_nonce_value()) + be32(nonce_seed) + be32(message)
}

/// The per-message nonce: 64 output bytes read big-endian, reduced.
pub open spec fn nonce_of(nonce_seed: nat, message: nat) -> nat {
    be_nat(blake3_xof64(nonce_input(nonce_seed, message))) % scalar_order()
}

/// What the algebraic hasher is given for the challenge: `R.x, R.y, Pk.x, Pk.y, message`,
/// each as 32 big-endian bytes.
pub open spec fn challenge_input(r: (nat, nat), pk: (nat, nat), message: nat) -> Seq<u8> {
    be32(r.0) + be32(r.1) + be32(pk.0) + be32(pk.1) + be32(message)
}

/// The challenge scalar of a digest: read big-endian into the base field,
/// then its little-endian encoding reduced into the scalar field.
pub open spec fn challenge_of(digest: Seq<u8>) -> nat {
    (be_nat(digest) % base_order()) % scalar_order()
}

/// The nonce used to sign `message` under `seed`.
pub open spec fn sign_nonce_of(seed: Seq<u8>, message: nat) -> nat {
    nonce_of(nonce_seed_of(seed), message)
}

/// The commitment point `R = r * G` of a signature.
pub open spec fn commitment_of(seed: Seq<u8>, message: nat) -> (nat, nat) {
    generator_mul_of(sign_nonce_of(seed, message))
}

/// The challenge input of signing `message` under `seed`.
pub open spec fn sign_transcript_of(seed: Seq<u8>, message: nat) -> Seq<u8> {
    challenge_input(commitment_of(seed, message), public_of(seed), message)
}

/// The response `s = r + c * sk` in the scalar field, for the challenge digest.
pub open spec fn response_of(seed: Seq<u8>, message: nat, digest: Seq<u8>) -> nat {
    (sign_nonce_of(seed, message) + challenge_of(digest) * signing_scalar_of(seed)) % scalar_order()
}

/// The point `8 * (s*G - R - c*Pk)`, by three doublings.
pub open spec fn cofactored_residue(pk: (nat, nat), r: (nat, nat), s: nat, c: nat) -> (nat, nat) {
    point_double_of(
        point_double_of(
            point_double_of(point_sub_of(point_sub_of(generator_mul_of(s), r), point_mul_of(pk, c))),
        ),
    )
}

/// The checks made before the challenge: `s` in range, `pk` not the identity,
/// both points on the curve.
pub open spec fn prechecks(pk: (nat, nat), r: (nat, nat), s: nat) -> bool {
    &&& s < scalar_order()
    &&& pk != identity()
    &&& on_curve(pk)
    &&& on_curve(r)
}

/// Whether a signature `(r, s)` is accepted under `pk`, for the challenge digest.
pub open spec fn accepts(pk: (nat, nat), r: (nat, nat), s: nat, digest: Seq<u8>) -> bool {
    &&& prechecks(pk, r, s)
    &&& cofactored_residue(pk, r, s, challenge_of(digest)) == identity()
}

/// `sig` is the signature of `message` under `seed`, for the challenge digest.
pub open spec fn signed(seed: Seq<u8>, message: nat, digest: Seq<u8>, sig: EdDSASignature) -> bool {
    &&& sig.r@ == commitment_of(seed, message)
    &&& le_nat(sig.s@) == response_of(seed, message, digest)
}

/// `sig` is the signature of `message` under `seed`, for some digest that `hasher`
/// returned on the challenge input.
pub open spec fn signed_with<F: Fn(Vec<u8>) -> Vec<u8>>(
    hasher: F,
    seed: Seq<u8>,
    message: nat,
    sig: EdDSASignature,
) -> bool {
    exists|t: Vec<u8>, d: Vec<u8>|
        {
            &&& t@ == sign_transcript_of(seed, message)
            &&& #[trigger] hasher.ensures((t,), d)
            &&& sig.wf()
            &&& on_curve(sig.r@)
            &&& signed(seed, message, d@, sig)
        }
}

/// The hasher gives equal digests for equal inputs.
pub open spec fn deterministic_hasher<F: Fn(Vec<u8>) -> Vec<u8>>(hasher: F) -> bool {
    forall|t1: Vec<u8>, t2: Vec<u8>, d1: Vec<u8>, d2: Vec<u8>|
        t1@ == t2@ && #[trigger] hasher.ensures((t1,), d1) && #[trigger] hasher.ensures((t2,), d2)
            ==> d1@ == d2@
}

/// Points with the same coordinates have the same encoding.
pub proof fn lemma_point_determined(p: Point, q: Point)
    requires
        p@ == q@,
    ensures
        p == q,
{
    lemma_le_nat_injective(p.x.bytes@, q.x.bytes@);
    lemma_le_nat_injective(p.y.bytes@, q.y.bytes@);
    assert(p.x.bytes =~= q.x.bytes);
    assert(p.y.bytes =~= q.y.bytes);
}

/// Signing is deterministic: one seed, message and challenge digest give
/// bit-identical signatures.
pub proof fn lemma_sign_deterministic(
    seed: Seq<u8>,
    message: nat,
    digest: Seq<u8>,
    a: EdDSASignature,
    b: EdDSASignature,
)
    requires
        signed(seed, message, digest, a),
        signed(seed, message, digest, b),
    ensures
        a == b,
{
    lemma_point_determined(a.r, b.r);
    lemma_le_nat_injective(a.s@, b.s@);
    assert(a.s =~= b.s);
}

/// Signing twice with one seed, one message and a deterministic hasher gives
/// bit-identical signatures.
pub proof fn lemma_sign_with_hasher_deterministic<F: Fn(Vec<u8>) -> Vec<u8>>(
    hasher: F,
    seed: Seq<u8>,
    message: nat,
    a: EdDSASignature,
    b: EdDSASignature,
)
    requires
        deterministic_hasher(hasher),
        signed_with(hasher, seed, message, a),
        signed_with(hasher, seed, message, b),
    ensures
        a == b,
{
    let (ta, da) = choose|t: Vec<u8>, d: Vec<u8>|
        {
            &&& t@ == sign_transcript_of(seed, message)
            &&& #[trigger] hasher.ensures((t,), d)
            &&& a.wf()
            &&& on_curve(a.r@)
            &&& signed(seed, message, d@, a)
        };
    let (tb, db) = choose|t: Vec<u8>, d: Vec<u8>|
        {
            &&& t@ == sign_transcript_of(seed, message)
            &&& #[trigger] hasher.ensures((t,), d)
            &&& b.wf()
            &&& on_curve(b.r@)
            &&& signed(seed, message, d@, b)
        };
    assert(hasher.ensures((ta,), da) && hasher.ensures((tb,), db));
    assert(da@ == db@);
    lemma_sign_deterministic(seed, message, da@, a, b);
}

/// The signing scalar depends on the low half of the seed's expansion alone.
pub proof fn lemma_signing_scalar_from_low_half(a: Seq<u8>, b: Seq<u8>)
    requires
        a.len() >= 32,
        b.len() >= 32,
        a.subrange(0, 32) == b.subrange(0, 32),
    ensures
        le_nat(clamp(a.subrange(0, 32))) % scalar_order() == le_nat(clamp(b.subrange(0, 32)))
            % scalar_order(),
{
}

/// Key derivation is deterministic: a seed has one signing scalar, and every
/// public key derived from it is the same, down to its encoding.
pub proof fn lemma_key_derivation_deterministic(seed: Seq<u8>, a: EdDSAPublicKey, b: EdDSAPublicKey)
    requires
        a.pk@ == public_of(seed),
        b.pk@ == public_of(seed),
    ensures
        a.pk@ == generator_mul_of(signing_scalar_of(seed)),
        a == b,
{
    lemma_point_determined(a.pk, b.pk);
}

/// A signature's response with the scalar-field order added is rejected by the
/// range check, whatever the rest of the check would say.
pub proof fn lemma_malleated_response_rejected(
    pk: (nat, nat),
    r: (nat, nat),
    s: nat,
    malleated: nat,
    digest: Seq<u8>,
)
    requires
        malleated == s + scalar_order(),
    ensures
        !accepts(pk, r, malleated, digest),
{
}

/// The response of every signature this library makes passes the range check.
pub proof fn lemma_response_in_range(seed: Seq<u8>, message: nat, digest: Seq<u8>)
    ensures
        response_of(seed, message, digest) < scalar_order(),
{
}

/// A private key: 32 bytes of seed material.
#[derive(Clone)]
pub struct EdDSAPrivateKey([u8; 32]);

/// A public key: one affine curve point.
#[derive(Clone, Copy, Debug, PartialEq, Eq, Hash)]
pub struct EdDSAPublicKey {
    pub pk: Point,
}

/// A signature: the commitment point `r` and the response `s`, as 32 little-endian bytes.
#[derive(Clone, Copy, Debug, PartialEq, Eq, Hash)]
pub struct EdDSASignature {
    pub r: Point,
    pub s: [u8; 32],
}

impl Drop for EdDSAPrivateKey {
    /// Wipes the key material.
    ///
    /// Relies on zeroize's `Zeroize` for byte arrays, which overwrites every byte
    /// with zero in a way the compiler does not remove.
    #[verifier::external_body]
    fn drop(&mut self)
        opens_invariants none
        no_unwind
    {
        zeroize::Zeroize::zeroize(&mut self.0);
    }
}

impl View for EdDSAPrivateKey {
    type V = Seq<u8>;

    closed spec fn view(&self) -> Seq<u8> {
        self.0@
    }
}

/// The big-endian encodings of the given elements, concatenated: `R.x, R.y, Pk.x, Pk.y, message`.
pub fn challenge_transcript(message: &BaseElem, nonce_r: &Point, pk: &Point) -> (r: Vec<u8>)
    ensures
        r@ == challenge_input(nonce_r@, pk@, message.value()),
{
    let mut inputs: Vec<u8> = Vec::new();
    let mut rx = nonce_r.x.to_bytes_be();
    let mut ry = nonce_r.y.to_bytes_be();
    let mut px = pk.x.to_bytes_be();
    let mut py = pk.y.to_bytes_be();
    let mut msg = message.to_bytes_be();
    inputs.append(&mut rx);
    inputs.append(&mut ry);
    inputs.append(&mut px);
    inputs.append(&mut py);
    inputs.append(&mut msg);
    inputs
}

/// The challenge as a base-field element: the algebraic hasher's digest of the
/// challenge input, read big-endian and reduced.
pub fn challenge_hash(digest: &[u8]) -> (r: BaseElem)
    ensures
        r.wf(),
        r.value() == be_nat(digest@) % base_order(),
{
    BaseElem::from_be_bytes_mod_order(digest)
}

/// A base-field element as a scalar: its little-endian encoding reduced modulo the
/// scalar-field order.
pub fn convert_base_to_scalar(f: &BaseElem) -> (r: Scalar)
    ensures
        r.wf(),
        r.value() == f.value() % scalar_order(),
{
    Scalar::from_le_bytes_mod_order(&f.bytes)
}

impl EdDSAPrivateKey {
    /// Creates a private key from raw bytes.
    pub fn from_bytes(bytes: [u8; 32]) -> (r: Self)
        ensures
            r@ == bytes@,
    {
        EdDSAPrivateKey(bytes)
    }

    /// The raw private key bytes.
    pub fn to_bytes(&self) -> (r: [u8; 32])
        ensures
            r@ == self@,
    {
        self.0
    }

    /// Expands the seed into 64 bytes with BLAKE3.
    fn hash_blake(&self) -> (r: [u8; 64])
        ensures
            r@ == blake3_xof64(self@),
    {
        blake3_expand(&self.0)
    }

    /// The clamped low half of an expansion, reduced into the scalar field.
    pub fn derive_sk(input: &[u8; 64]) -> (r: Scalar)
        ensures
            r.wf(),
            r.value() == le_nat(clamp(input@.subrange(0, 32))) % scalar_order(),
    {
        let mut buf = [0u8; 32];
        let mut i: usize = 0;
        while i < 32
            invariant
                i <= 32,
                forall|j: int| 0 <= j < i ==> buf@[j] == input@[j],
            decreases 32 - i,
        {
            buf[i] = input[i];
            i = i + 1;
        }
        buf[0] = buf[0] & 0xf8;
        buf[31] = buf[31] & 0x7f;
        buf[31] = buf[31] | 0x40;
        assert(buf@ =~= clamp(input@.subrange(0, 32)));
        Scalar::from_le_bytes_mod_order(&buf)
    }

    /// The high half of an expansion, reduced into the scalar field.
    fn derive_nonce_seed(input: &[u8; 64]) -> (r: Scalar)
        ensures
            r.wf(),
            r.value() == le_nat(input@.subrange(32, 64)) % scalar_order(),
    {
        let mut buf = [0u8; 32];
        let mut i: usize = 0;
        while i < 32
            invariant
                i <= 32,
                forall|j: int| 0 <= j < i ==> buf@[j] == input@[32 + j],
            decreases 32 - i,
        {
            buf[i] = input[32 + i];
            i = i + 1;
        }
        assert(buf@ =~= input@.subrange(32, 64));
        Scalar::from_le_bytes_mod_order(&buf)
    }

    /// The public key `sk * G`.
    pub fn public(&self) -> (r: EdDSAPublicKey)
        ensures
            r.wf(),
            on_curve(r.pk@),
            r.pk@ == public_of(self@),
    {
        let out = self.hash_blake();
        let sk = Self::derive_sk(&out);
        let pk = generator_mul(&sk);
        EdDSAPublicKey { pk }
    }

    /// The deterministic nonce: BLAKE3 over the tag, the nonce seed and the message,
    /// 64 bytes read big-endian and reduced.
    fn deterministic_nonce(message: &BaseElem, sk: &Scalar) -> (r: Scalar)
        ensures
            r.wf(),
            r.value() == nonce_of(sk.value(), message.value()),
    {
        let mut input = EdDSASignature::get_dst_nonce().to_bytes_be();
        let mut seed = sk.to_bytes_be();
        let mut msg = message.to_bytes_be();
        input.append(&mut seed);
        input.append(&mut msg);
        let out = blake3_expand(input.as_slice());
        Scalar::from_be_bytes_mod_order(&out)
    }

    /// The challenge input of signing `message`: what the algebraic hasher must digest
    /// before `sign`.
    pub fn sign_transcript(&self, message: &BaseElem) -> (r: Vec<u8>)
        ensures
            r@ == sign_transcript_of(self@, message.value()),
    {
        let out = self.hash_blake();
        let sk = Self::derive_sk(&out);
        let nonce_secret = Self::derive_nonce_seed(&out);
        let r_scalar = Self::deterministic_nonce(message, &nonce_secret);
        let nonce_point = generator_mul(&r_scalar);
        let pk = generator_mul(&sk);
        challenge_transcript(message, &nonce_point, &pk)
    }

    /// Signs `message`, with `hasher` as the algebraic hasher of the challenge input.
    pub fn sign<F: Fn(Vec<u8>) -> Vec<u8>>(&self, message: &BaseElem, hasher: F) -> (r:
        EdDSASignature)
        requires
            forall|t: Vec<u8>| hasher.requires((t,)),
        ensures
            signed_with(hasher, self@, message.value(), r),
    {
        let t = self.sign_transcript(message);
        let ghost tv = t;
        let d = hasher(t);
        let r = self.sign_with_digest(message, d.as_slice());
        assert(hasher.ensures((tv,), d));
        r
    }

    /// Signs `message`, given the algebraic hasher's digest of its challenge input
    /// (see `sign_transcript`): `R = r * G`, `s = r + c * sk`.
    pub fn sign_with_digest(&self, message: &BaseElem, digest: &[u8]) -> (r: EdDSASignature)
        ensures
            r.wf(),
            on_curve(r.r@),
            signed(self@, message.value(), digest@, r),
    {
        let out = self.hash_blake();
        let sk = Self::derive_sk(&out);
        let nonce_secret = Self::derive_nonce_seed(&out);
        let r_scalar = Self::deterministic_nonce(message, &nonce_secret);
        let nonce_point = generator_mul(&r_scalar);
        let c_scalar = convert_base_to_scalar(&challenge_hash(digest));
        let s = r_scalar.add(&c_scalar.mul(&sk));
        proof {
            vstd::arithmetic::div_mod::lemma_add_mod_noop_right(
                r_scalar.value() as int,
                (c_scalar.value() * sk.value()) as int,
                scalar_order() as int,
            );
            vstd::arithmetic::div_mod::lemma_small_mod(r_scalar.value(), scalar_order());
        }
        EdDSASignature { r: nonce_point, s: s.bytes }
    }
}

impl EdDSAPublicKey {
    pub open spec fn wf(&self) -> bool {
        self.pk.wf()
    }

    /// The challenge input of verifying `signature` on `message`: what the algebraic
    /// hasher must digest before `verify_with_digest`.
    pub fn verify_transcript(&self, message: &BaseElem, signature: &EdDSASignature) -> (r: Vec<u8>)
        ensures
            r@ == challenge_input(signature.r@, self.pk@, message.value()),
    {
        challenge_transcript(message, &signature.r, &self.pk)
    }

    /// The checks that `verify` makes before it needs the challenge.
    pub fn precheck(&self, signature: &EdDSASignature) -> (r: bool)
        requires
            self.wf(),
            signature.wf(),
        ensures
            r == prechecks(self.pk@, signature.r@, le_nat(signature.s@)),
    {
        // The range check rejects `s + order`, which the equation alone would accept.
        if !below_scalar_order(&signature.s) {
            return false;
        }
        // Subgroup membership is not checked: the cofactor multiplication absorbs it.
        !is_identity(&self.pk) && is_on_curve(&self.pk) && is_on_curve(&signature.r)
    }

    /// Verifies `signature` on `message`, with `hasher` as the algebraic hasher of the
    /// challenge input. The hasher is not called when the checks before it fail.
    pub fn verify<F: Fn(Vec<u8>) -> Vec<u8>>(
        &self,
        message: &BaseElem,
        signature: &EdDSASignature,
        hasher: F,
    ) -> (r: bool)
        requires
            self.wf(),
            signature.wf(),
            forall|t: Vec<u8>| hasher.requires((t,)),
        ensures
            !prechecks(self.pk@, signature.r@, le_nat(signature.s@)) ==> !r,
            prechecks(self.pk@, signature.r@, le_nat(signature.s@)) ==> exists|
                t: Vec<u8>,
                d: Vec<u8>,
            |
                {
                    &&& t@ == challenge_input(signature.r@, self.pk@, message.value())
                    &&& hasher.ensures((t,), d)
                    &&& r == accepts(self.pk@, signature.r@, le_nat(signature.s@), d@)
                },
    {
        if !self.precheck(signature) {
            return false;
        }
        let t = self.verify_transcript(message, signature);
        let ghost tv = t;
        let d = hasher(t);
        let r = self.verify_with_digest(signature, d.as_slice());
        assert(hasher.ensures((tv,), d));
        r
    }

    /// Verifies `signature`, given the algebraic hasher's digest of its challenge input
    /// (see `verify_transcript`), by the cofactored equation `8 * (s*G - R - c*Pk) == 0`.
    pub fn verify_with_digest(&self, signature: &EdDSASignature, digest: &[u8]) -> (r: bool)
        requires
            self.wf(),
            signature.wf(),
        ensures
            r == accepts(self.pk@, signature.r@, le_nat(signature.s@), digest@),
    {
        if !self.precheck(signature) {
            return false;
        }
        let c = convert_base_to_scalar(&challenge_hash(digest));
        let s = Scalar { bytes: signature.s };
        let s_times_g = generator_mul(&s);
        let c_times_pk = point_mul(&self.pk, &c);
        let mut result = point_sub(&point_sub(&s_times_g, &signature.r), &c_times_pk);
        result = point_double(&result);
        result = point_double(&result);
        result = point_double(&result);
        is_identity(&result)
    }
}

impl EdDSASignature {
    pub open spec fn wf(&self) -> bool {
        self.r.wf()
    }

    /// The domain-separation tag of nonce derivation, reduced into the base field.
    fn get_dst_nonce() -> (r: BaseElem)
        ensures
            r.wf(),
            r.value() == dst_nonce_value(),
    {
        let tag: [u8; 32] = [
            0x54, 0x6f, 0x6b, 0x61, 0x6d, 0x61, 0x6b, 0x41, 0x75, 0x74, 0x68, 0xe2, 0x80, 0x91,
            0x45, 0x44, 0x44, 0x53, 0x41, 0xe2, 0x80, 0x91, 0x4e, 0x4f, 0x4e, 0x43, 0x45, 0xe2,
            0x80, 0x91, 0x76, 0x31,
        ];
        assert(tag@ =~= dst_nonce_seq());
        BaseElem::from_be_bytes_mod_order(&tag)
    }
}

} // verus!
