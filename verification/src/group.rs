//! The group substrate: scalars and points of the ristretto255 group, held as
//! their canonical 32-byte encodings, with every operation delegated to
//! curve25519-dalek behind a small trusted wrapper.
//!
//! Scalars are little-endian encodings of integers below the group order;
//! points are canonical ristretto255 compressed encodings.  Each wrapper's
//! contract names the byte-level result of the underlying call; the names
//! (`s_add`, `p_mul`, ...) are deterministic functions of the argument bytes
//! alone.
use vstd::prelude::*;

use crate::bytes::le_bytes_to_nat;
use blake2::digest::Update;
use blake2::Blake2b;
use curve25519_dalek::ristretto::CompressedRistretto;
use curve25519_dalek::ristretto::RistrettoPoint;
use curve25519_dalek::scalar::Scalar;
use curve25519_dalek::traits::VartimeMultiscalarMul;
use merlin::Transcript;
use sha2::Sha512;

verus! {

/// The order of the ristretto255 group (a prime, about 2^252).
pub open spec fn group_order() -> nat {
    vstd::arithmetic::power2::pow2(252) + 27742317777372353535851937790883648493nat
}

/// A 32-byte string is a canonical scalar encoding when it is the
/// little-endian encoding of an integer below the group order.
pub open spec fn s_canonical(b: Seq<u8>) -> bool {
    b.len() == 32 && le_bytes_to_nat(b) < group_order()
}

/// The sum of two scalars mod the group order, on their byte encodings.
pub uninterp spec fn s_add(a: Seq<u8>, b: Seq<u8>) -> Seq<u8>;

/// The difference of two scalars mod the group order, on their byte encodings.
pub uninterp spec fn s_sub(a: Seq<u8>, b: Seq<u8>) -> Seq<u8>;

/// The product of two scalars mod the group order, on their byte encodings.
pub uninterp spec fn s_mul(a: Seq<u8>, b: Seq<u8>) -> Seq<u8>;

/// The multiplicative inverse of a scalar mod the group order.
pub uninterp spec fn s_inv(a: Seq<u8>) -> Seq<u8>;

/// The canonical scalar encoding of a 64-bit integer.
pub uninterp spec fn s_of_u64(n: u64) -> Seq<u8>;

/// The canonical scalar obtained by reducing 32 bytes mod the group order.
pub uninterp spec fn s_reduce(a: Seq<u8>) -> Seq<u8>;

/// The scalar obtained by hashing bytes with SHA-512 and reducing the
/// 64-byte digest mod the group order.
pub uninterp spec fn s_hash_sha512(data: Seq<u8>) -> Seq<u8>;

/// The scalar obtained by hashing bytes with BLAKE2b under the given
/// persona string and reducing the 64-byte digest mod the group order.
pub uninterp spec fn blake_to_scalar(persona: Seq<u8>, data: Seq<u8>) -> Seq<u8>;

/// The point obtained by hashing bytes with BLAKE2b under the given persona
/// string and mapping the 64-byte digest onto the group.
pub uninterp spec fn blake_to_point(persona: Seq<u8>, data: Seq<u8>) -> Seq<u8>;

/// Whether 32 bytes are the canonical compressed encoding of a group point.
pub uninterp spec fn p_valid(p: Seq<u8>) -> bool;

/// The compressed sum of two points, on their compressed encodings.
pub uninterp spec fn p_add(a: Seq<u8>, b: Seq<u8>) -> Seq<u8>;

/// The compressed difference of two points, on their compressed encodings.
pub uninterp spec fn p_sub(a: Seq<u8>, b: Seq<u8>) -> Seq<u8>;

/// The compressed product scalar * point, on byte encodings.
pub uninterp spec fn p_mul(s: Seq<u8>, p: Seq<u8>) -> Seq<u8>;

/// The compressed product scalar * fixed basepoint.
pub uninterp spec fn p_base_mul(s: Seq<u8>) -> Seq<u8>;

/// The point obtained by hashing bytes with SHA-512 and mapping the 64-byte
/// digest onto the group.
pub uninterp spec fn p_hash_sha512(data: Seq<u8>) -> Seq<u8>;

/// The challenge scalar drawn from a transcript over the domain label
/// `clsag` after absorbing the ring bytes and two compressed points.
pub uninterp spec fn t_challenge(ring: Seq<u8>, l: Seq<u8>, r: Seq<u8>) -> Seq<u8>;

/// A multi-scalar multiplication, written as a left-to-right fold of
/// single-scalar multiplications: the compressed encoding of
/// scalars[0]*points[0] + ... + scalars[n-1]*points[n-1].
pub open spec fn msm(scalars: Seq<Seq<u8>>, points: Seq<Seq<u8>>) -> Seq<u8>
    recommends
        scalars.len() == points.len(),
        scalars.len() >= 1,
    decreases scalars.len(),
{
    if scalars.len() <= 1 {
        p_mul(scalars[0], points[0])
    } else {
        p_add(msm(scalars.drop_last(), points.drop_last()), p_mul(scalars.last(), points.last()))
    }
}

/// Relies on `Scalar`'s `Add` in curve25519-dalek: the sum mod the group
/// order, returned in canonical form.
#[verifier::external_body]
pub(crate) fn scalar_add(a: [u8; 32], b: [u8; 32]) -> (r: [u8; 32])
    ensures
        r@ == s_add(a@, b@),
        s_canonical(r@),
{
    let x = Scalar::from_bytes_mod_order(a);
    let y = Scalar::from_bytes_mod_order(b);
    (x + y).to_bytes()
}

/// Relies on `Scalar`'s `Sub` in curve25519-dalek: the difference mod the
/// group order, returned in canonical form.
#[verifier::external_body]
pub(crate) fn scalar_sub(a: [u8; 32], b: [u8; 32]) -> (r: [u8; 32])
    ensures
        r@ == s_sub(a@, b@),
        s_canonical(r@),
{
    let x = Scalar::from_bytes_mod_order(a);
    let y = Scalar::from_bytes_mod_order(b);
    (x - y).to_bytes()
}

/// Relies on `Scalar`'s `Mul` in curve25519-dalek: the product mod the group
/// order, returned in canonical form.
#[verifier::external_body]
pub(crate) fn scalar_mul(a: [u8; 32], b: [u8; 32]) -> (r: [u8; 32])
    ensures
        r@ == s_mul(a@, b@),
        s_canonical(r@),
{
    let x = Scalar::from_bytes_mod_order(a);
    let y = Scalar::from_bytes_mod_order(b);
    (x * y).to_bytes()
}

/// Relies on `Scalar::invert` in curve25519-dalek: the multiplicative
/// inverse mod the group order, in canonical form.
#[verifier::external_body]
pub(crate) fn scalar_invert(a: [u8; 32]) -> (r: [u8; 32])
    ensures
        r@ == s_inv(a@),
        s_canonical(r@),
{
    Scalar::from_bytes_mod_order(a).invert().to_bytes()
}

/// Relies on `Scalar`'s `From<u64>` in curve25519-dalek: the little-endian
/// encoding of the integer, which is far below the group order.
#[verifier::external_body]
pub(crate) fn scalar_from_u64(n: u64) -> (r: [u8; 32])
    ensures
        r@ == s_of_u64(n),
        s_canonical(r@),
{
    Scalar::from(n).to_bytes()
}

/// Relies on `Scalar::from_bytes_mod_order` in curve25519-dalek: reduction
/// mod the group order; bytes that are already canonical come back unchanged.
#[verifier::external_body]
pub(crate) fn scalar_reduce(a: [u8; 32]) -> (r: [u8; 32])
    ensures
        r@ == s_reduce(a@),
        s_canonical(r@),
        s_canonical(a@) ==> r@ == a@,
{
    Scalar::from_bytes_mod_order(a).to_bytes()
}

/// Relies on `Scalar::from_canonical_bytes` in curve25519-dalek: it returns
/// `Some` exactly when the bytes are the canonical little-endian encoding of
/// an integer below the group order.
#[verifier::external_body]
pub(crate) fn scalar_is_canonical(b: &[u8; 32]) -> (r: bool)
    ensures
        r <==> s_canonical(b@),
{
    Scalar::from_canonical_bytes(*b).is_some()
}

/// Relies on `Scalar::random` in curve25519-dalek with `rand::thread_rng`:
/// a random canonical scalar.  Nothing is assumed beyond canonicity.
#[verifier::external_body]
pub(crate) fn scalar_random() -> (r: [u8; 32])
    ensures
        s_canonical(r@),
{
    let mut rng = rand::thread_rng();
    Scalar::random(&mut rng).to_bytes()
}

/// Relies on `Scalar::hash_from_bytes::<Sha512>` in curve25519-dalek: a
/// SHA-512 digest of the input reduced to a canonical scalar, a function of
/// the input bytes alone.
#[verifier::external_body]
pub(crate) fn hash_to_scalar_sha512(data: &[u8]) -> (r: [u8; 32])
    ensures
        r@ == s_hash_sha512(data@),
        s_canonical(r@),
{
    Scalar::hash_from_bytes::<Sha512>(data).to_bytes()
}

/// Relies on `Blake2b::with_params` and `update` in blake2 (empty key and
/// salt, the given persona) and `Scalar::from_hash` in curve25519-dalek: a
/// BLAKE2b digest of the input reduced to a canonical scalar, a function of
/// the persona and input bytes alone.  blake2 asserts that a persona is at
/// most 16 bytes, so longer personas are excluded.
#[verifier::external_body]
pub(crate) fn blake_hash_to_scalar(persona: &[u8], data: &[u8]) -> (r: [u8; 32])
    requires
        persona@.len() <= 16,
    ensures
        r@ == blake_to_scalar(persona@, data@),
        s_canonical(r@),
{
    let mut h = Blake2b::with_params(&[], &[], persona);
    h.update(data);
    Scalar::from_hash(h).to_bytes()
}

/// Relies on `Blake2b::with_params` and `update` in blake2 (empty key and
/// salt, the given persona) and `RistrettoPoint::from_hash` in
/// curve25519-dalek: a BLAKE2b digest of the input mapped onto the group and
/// compressed, a function of the persona and input bytes alone.  blake2
/// asserts that a persona is at most 16 bytes, so longer personas are
/// excluded.
#[verifier::external_body]
pub(crate) fn blake_hash_to_point(persona: &[u8], data: &[u8]) -> (r: [u8; 32])
    requires
        persona@.len() <= 16,
    ensures
        r@ == blake_to_point(persona@, data@),
        p_valid(r@),
{
    let mut h = Blake2b::with_params(&[], &[], persona);
    h.update(data);
    RistrettoPoint::from_hash(h).compress().to_bytes()
}

/// Relies on `CompressedRistretto::decompress` in curve25519-dalek: it
/// returns `Some` exactly when the bytes are the canonical encoding of a
/// group point.
#[verifier::external_body]
pub(crate) fn point_is_valid(p: &[u8; 32]) -> (r: bool)
    ensures
        r <==> p_valid(p@),
{
    CompressedRistretto(*p).decompress().is_some()
}

/// Relies on `RistrettoPoint`'s `Add` and on compression being canonical in
/// curve25519-dalek: the compressed sum of the two points.
#[verifier::external_body]
pub(crate) fn point_add(a: [u8; 32], b: [u8; 32]) -> (r: [u8; 32])
    requires
        p_valid(a@),
        p_valid(b@),
    ensures
        r@ == p_add(a@, b@),
        p_valid(r@),
{
    let x = CompressedRistretto(a).decompress().unwrap();
    let y = CompressedRistretto(b).decompress().unwrap();
    (x + y).compress().to_bytes()
}

/// Relies on `RistrettoPoint`'s `Sub` and on compression being canonical in
/// curve25519-dalek: the compressed difference of the two points.
#[verifier::external_body]
pub(crate) fn point_sub(a: [u8; 32], b: [u8; 32]) -> (r: [u8; 32])
    requires
        p_valid(a@),
        p_valid(b@),
    ensures
        r@ == p_sub(a@, b@),
        p_valid(r@),
{
    let x = CompressedRistretto(a).decompress().unwrap();
    let y = CompressedRistretto(b).decompress().unwrap();
    (x - y).compress().to_bytes()
}

/// Relies on `Mul<&RistrettoPoint> for &Scalar` and on compression being
/// canonical in curve25519-dalek: the compressed product scalar * point.
#[verifier::external_body]
pub(crate) fn point_mul(s: [u8; 32], p: [u8; 32]) -> (r: [u8; 32])
    requires
        p_valid(p@),
    ensures
        r@ == p_mul(s@, p@),
        p_valid(r@),
{
    let x = Scalar::from_bytes_mod_order(s);
    let y = CompressedRistretto(p).decompress().unwrap();
    (x * y).compress().to_bytes()
}

/// Relies on `Mul<&RistrettoPoint> for &Scalar` applied to
/// `RISTRETTO_BASEPOINT_POINT` in curve25519-dalek: the compressed product
/// scalar * basepoint.
#[verifier::external_body]
pub(crate) fn basepoint_mul(s: [u8; 32]) -> (r: [u8; 32])
    ensures
        r@ == p_base_mul(s@),
        p_valid(r@),
{
    let x = Scalar::from_bytes_mod_order(s);
    (x * curve25519_dalek::constants::RISTRETTO_BASEPOINT_POINT).compress().to_bytes()
}

/// Relies on `RistrettoPoint::hash_from_bytes::<Sha512>` in
/// curve25519-dalek: a SHA-512 digest of the input mapped onto the group and
/// compressed, a function of the input bytes alone.
#[verifier::external_body]
pub(crate) fn hash_to_point_sha512(data: &[u8]) -> (r: [u8; 32])
    ensures
        r@ == p_hash_sha512(data@),
        p_valid(r@),
{
    RistrettoPoint::hash_from_bytes::<Sha512>(data).compress().to_bytes()
}

/// Relies on `Transcript::new`, `append_message` and `challenge_bytes` in
/// merlin, and `Scalar::from_bytes_mod_order_wide` in curve25519-dalek.  The
/// transcript is created under the fixed domain label `clsag`, absorbs the
/// ring bytes and the two compressed points under empty labels, and a
/// 64-byte challenge is reduced to a canonical scalar: a function of the
/// three arguments alone.  merlin asserts that an absorbed message's length
/// fits 32 bits, so longer ring serializations are excluded.
#[verifier::external_body]
pub(crate) fn transcript_challenge(ring: &[u8], l: &[u8; 32], r_pt: &[u8; 32]) -> (r: [u8; 32])
    requires
        ring@.len() <= 0xffff_ffff,
    ensures
        r@ == t_challenge(ring@, l@, r_pt@),
        s_canonical(r@),
{
    let mut t = Transcript::new(b"clsag");
    t.append_message(b"", ring);
    t.append_message(b"", l);
    t.append_message(b"", r_pt);
    let mut buf = [0u8; 64];
    t.challenge_bytes(b"", &mut buf);
    Scalar::from_bytes_mod_order_wide(&buf).to_bytes()
}

/// Relies on `RistrettoPoint::optional_multiscalar_mul` in curve25519-dalek:
/// with every point valid it returns the sum of the scalar-point products,
/// which equals the `msm` fold of single additions and multiplications
/// because group addition is associative and compression is canonical.
#[verifier::external_body]
pub(crate) fn multiscalar_mul(scalars: &Vec<[u8; 32]>, points: &Vec<[u8; 32]>) -> (r: [u8; 32])
    requires
        scalars@.len() == points@.len(),
        scalars@.len() >= 1,
        forall|i: int| 0 <= i < points@.len() ==> p_valid(points@[i]@),
    ensures
        r@ == msm(crate::bytes::seq_views(scalars@), crate::bytes::seq_views(points@)),
        p_valid(r@),
{
    let sc: Vec<Scalar> = scalars.iter().map(|b| Scalar::from_bytes_mod_order(*b)).collect();
    let pt = points.iter().map(|b| CompressedRistretto(*b).decompress());
    RistrettoPoint::optional_multiscalar_mul(&sc, pt).unwrap().compress().to_bytes()
}

} // verus!
