use crate::curve::{on_curve, Point};
use crate::eddsa::{lemma_point_determined, EdDSAPublicKey, EdDSASignature};
use crate::field::{
    base_order, below_base_order, le_nat, lemma_le_nat_injective, lemma_le_nat_parity,
    lemma_top_bit_clear, BaseElem,
};
use ark_ed_on_bls12_381::{EdwardsAffine as Affine, Fq};
use ark_ff::{BigInteger, PrimeField};
use vstd::prelude::*;

verus! {

/// Why bytes could not be decoded.
#[derive(Clone, Copy, Debug, PartialEq, Eq)]
pub enum CodecError {
    /// The y-coordinate is not a canonical base-field element.
    NonCanonical,
    /// No curve point has this y-coordinate and x-parity.
    InvalidPoint,
}

/// The 32-byte compression of a point: `y` little-endian, with the parity of `x`
/// in the top bit of the last byte.
pub open spec fn compress(p: Point) -> Seq<u8> {
    p.y.bytes@.update(
        31,
        p.y.bytes@[31] | (if p.x.value() % 2 == 1 {
            0x80u8
        } else {
            0u8
        }),
    )
}

/// The y-coordinate bytes of a compression: the sign bit cleared.
pub open spec fn y_bytes_of(b: Seq<u8>) -> Seq<u8> {
    b.update(31, b[31] & 0x7fu8)
}

/// The sign bit of a compression: whether `x` is odd.
pub open spec fn x_odd_of(b: Seq<u8>) -> bool {
    b[31] & 0x80u8 != 0
}

/// `p` is a curve point whose compression is `b`.
pub open spec fn decodes_to(b: Seq<u8>, p: (nat, nat)) -> bool {
    &&& le_nat(y_bytes_of(b)) < base_order()
    &&& p.0 < base_order()
    &&& p.1 == le_nat(y_bytes_of(b))
    &&& on_curve(p)
    &&& (p.0 % 2 == 1) == x_odd_of(b)
}

/// `p` is the one point that `b` decodes to.
pub open spec fn decoded(b: Seq<u8>, p: Point) -> bool {
    &&& p.wf()
    &&& decodes_to(b, p@)
    &&& forall|q: (nat, nat)| #[trigger] decodes_to(b, q) ==> q == p@
}

/// The two x-coordinates of the curve points with y-coordinate `y`, `x` and `-x`.
///
/// Relies on ark_ec's `Affine::get_xs_from_y_unchecked`, which solves
/// `x^2 = (1 - y^2) / (a - d*y^2)` with the field's `sqrt`, and returns `None`
/// where the denominator or the square root does not exist.
#[verifier::external_body]
fn xs_from_y(y: &BaseElem) -> (r: Option<(BaseElem, BaseElem)>)
    requires
        y.wf(),
    ensures
        r matches Some((a, b)) ==> {
            &&& a.wf() && b.wf()
            &&& on_curve((a.value(), y.value())) && on_curve((b.value(), y.value()))
            &&& b.value() == (base_order() - a.value()) % (base_order() as int)
            &&& forall|x: nat|
                x < base_order() && #[trigger] on_curve((x, y.value())) ==> x == a.value() || x
                    == b.value()
        },
        r is None ==> forall|x: nat| x < base_order() ==> !#[trigger] on_curve((x, y.value())),
{
    match Affine::get_xs_from_y_unchecked(Fq::from_le_bytes_mod_order(&y.bytes)) {
        Some((a, b)) => Some((
            BaseElem { bytes: a.into_bigint().to_bytes_le().try_into().unwrap() },
            BaseElem { bytes: b.into_bigint().to_bytes_le().try_into().unwrap() },
        )),
        None => None,
    }
}

/// Whether the lowest bit of a canonical element is set, that is whether it is odd.
fn is_odd(e: &BaseElem) -> (r: bool)
    ensures
        r == (e.value() % 2 == 1),
{
    proof {
        lemma_le_nat_parity(e.bytes@);
    }
    let b = e.bytes[0];
    assert((b & 1 == 1) == (b % 2 == 1)) by (bit_vector);
    b & 1 == 1
}

/// Compresses a point into 32 bytes.
pub fn compress_point(p: &Point) -> (r: [u8; 32])
    ensures
        r@ == compress(*p),
{
    let mut buf = p.y.bytes;
    let sign: u8 = if is_odd(&p.x) {
        0x80
    } else {
        0x00
    };
    buf[31] = buf[31] | sign;
    assert(buf@ =~= compress(*p));
    buf
}

/// Decompresses 32 bytes into the curve point they encode.
pub fn decompress_point(b: &[u8; 32]) -> (r: Result<Point, CodecError>)
    ensures
        r matches Ok(p) ==> decoded(b@, p),
        r is Err ==> forall|q: (nat, nat)| !#[trigger] decodes_to(b@, q),
        r == Err::<Point, CodecError>(CodecError::NonCanonical) <==> le_nat(y_bytes_of(b@))
            >= base_order(),
{
    let mut ybytes = *b;
    ybytes[31] = ybytes[31] & 0x7f;
    let odd = b[31] & 0x80 != 0;
    assert(ybytes@ =~= y_bytes_of(b@));
    if !below_base_order(&ybytes) {
        return Err(CodecError::NonCanonical);
    }
    let y = BaseElem { bytes: ybytes };
    match xs_from_y(&y) {
        None => Err(CodecError::InvalidPoint),
        Some((x1, x2)) => {
            let x = if is_odd(&x1) == odd {
                x1
            } else {
                x2
            };
            if is_odd(&x) != odd {
                return Err(CodecError::InvalidPoint);
            }
            proof {
                let q = base_order() as int;
                assert(q % 2 == 1);
                // Of `x` and `-x`, exactly one is odd, unless both are zero.
                if x1.value() != 0 {
                    vstd::arithmetic::div_mod::lemma_small_mod(
                        (q - x1.value()) as nat,
                        q as nat,
                    );
                    assert(x2.value() == q - x1.value());
                    assert((x1.value() % 2 == 1) != (x2.value() % 2 == 1));
                } else {
                    vstd::arithmetic::div_mod::lemma_mod_self_0(q);
                    assert(x2.value() == 0);
                }
                assert forall|p: (nat, nat)| #[trigger] decodes_to(b@, p) implies p == (
                x.value(),
                y.value(),
                ) by {
                    assert(p.1 == y.value());
                    assert(p == (p.0, y.value()));
                    assert(on_curve((p.0, y.value())));
                    assert(p.0 == x1.value() || p.0 == x2.value());
                }
            }
            Ok(Point { x, y })
        },
    }
}

/// The 64-byte encoding of a signature: the compressed `r`, then `s`.
pub open spec fn compress_signature(sig: EdDSASignature) -> Seq<u8> {
    compress(sig.r) + sig.s@
}

/// `sig` is what the 64 bytes `b` decode to.
pub open spec fn decoded_signature(b: Seq<u8>, sig: EdDSASignature) -> bool {
    &&& decoded(b.subrange(0, 32), sig.r)
    &&& sig.s@ == b.subrange(32, 64)
}

/// Decompressing the compression of a valid point gives the point back.
pub proof fn lemma_point_round_trip(p: Point, d: Point)
    requires
        p.wf(),
        on_curve(p@),
    ensures
        decodes_to(compress(p), p@),
        decoded(compress(p), d) ==> d == p,
{
    let b = compress(p);
    let a = p.y.bytes@[31];
    lemma_top_bit_clear(p.y.bytes@);
    let sign: u8 = if p.x.value() % 2 == 1 {
        0x80u8
    } else {
        0u8
    };
    assert(a < 128 ==> (a | 0x80u8) & 0x7fu8 == a && (a | 0x80u8) & 0x80u8 != 0) by (bit_vector);
    assert(a < 128 ==> (a | 0u8) & 0x7fu8 == a && (a | 0u8) & 0x80u8 == 0) by (bit_vector);
    assert(y_bytes_of(b) =~= p.y.bytes@);
    assert(decodes_to(b, p@));
    if decoded(b, d) {
        lemma_point_determined(d, p);
    }
}

/// A valid public key survives encoding and decoding.
pub proof fn lemma_public_key_round_trip(k: EdDSAPublicKey, d: EdDSAPublicKey)
    requires
        k.wf(),
        on_curve(k.pk@),
    ensures
        decodes_to(compress(k.pk), k.pk@),
        decoded(compress(k.pk), d.pk) ==> d == k,
{
    lemma_point_round_trip(k.pk, d.pk);
}

/// A signature whose point is valid survives encoding and decoding.
pub proof fn lemma_signature_round_trip(sig: EdDSASignature, d: EdDSASignature)
    requires
        sig.wf(),
        on_curve(sig.r@),
    ensures
        decodes_to(compress_signature(sig).subrange(0, 32), sig.r@),
        decoded_signature(compress_signature(sig), d) ==> d == sig,
{
    let b = compress_signature(sig);
    assert(b.subrange(0, 32) =~= compress(sig.r));
    assert(b.subrange(32, 64) =~= sig.s@);
    lemma_point_round_trip(sig.r, d.r);
    if decoded_signature(b, d) {
        assert(d.s =~= sig.s);
    }
}

impl EdDSASignature {
    /// The 64-byte encoding of the signature: compressed `r`, then `s`.
    pub fn to_compressed_bytes(&self) -> (r: Result<[u8; 64], CodecError>)
        ensures
            r matches Ok(b) && b@ == compress_signature(*self),
    {
        let head = compress_point(&self.r);
        let mut bytes = [0u8; 64];
        let mut i: usize = 0;
        while i < 64
            invariant
                i <= 64,
                head@ == compress(self.r),
                compress_signature(*self) == compress(self.r) + self.s@,
                forall|j: int| 0 <= j < i ==> bytes@[j] == compress_signature(*self)[j],
            decreases 64 - i,
        {
            if i < 32 {
                bytes[i] = head[i];
            } else {
                bytes[i] = self.s[i - 32];
            }
            i = i + 1;
        }
        assert(bytes@ =~= compress_signature(*self));
        Ok(bytes)
    }

    /// Decodes a signature from its 64-byte encoding; `s` is taken as it stands.
    pub fn from_compressed_bytes(b: &[u8; 64]) -> (r: Result<EdDSASignature, CodecError>)
        ensures
            r matches Ok(sig) ==> decoded_signature(b@, sig),
            r is Err ==> forall|q: (nat, nat)| !#[trigger] decodes_to(b@.subrange(0, 32), q),
    {
        let mut head = [0u8; 32];
        let mut s = [0u8; 32];
        let mut i: usize = 0;
        while i < 32
            invariant
                i <= 32,
                forall|j: int| 0 <= j < i ==> head@[j] == b@[j] && s@[j] == b@[32 + j],
            decreases 32 - i,
        {
            head[i] = b[i];
            s[i] = b[32 + i];
            i = i + 1;
        }
        assert(head@ =~= b@.subrange(0, 32));
        assert(s@ =~= b@.subrange(32, 64));
        match decompress_point(&head) {
            Ok(r) => Ok(EdDSASignature { r, s }),
            Err(e) => Err(e),
        }
    }
}

impl EdDSAPublicKey {
    /// The 32-byte compressed encoding of the key.
    pub fn to_compressed_bytes(&self) -> (r: Result<[u8; 32], CodecError>)
        ensures
            r matches Ok(b) && b@ == compress(self.pk),
    {
        Ok(compress_point(&self.pk))
    }

    /// Decodes a key from its 32-byte compressed encoding.
    pub fn from_compressed_bytes(b: &[u8; 32]) -> (r: Result<EdDSAPublicKey, CodecError>)
        ensures
            r matches Ok(k) ==> decoded(b@, k.pk),
            r is Err ==> forall|q: (nat, nat)| !#[trigger] decodes_to(b@, q),
    {
        match decompress_point(b) {
            Ok(pk) => Ok(EdDSAPublicKey { pk }),
            Err(e) => Err(e),
        }
    }
}

} // verus!
