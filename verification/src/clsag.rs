//! CLSAG: concise linkable spontaneous anonymous group signatures.
//!
//! A signature proves that the signer controls one of the N rows of a
//! public N-by-K matrix of compressed points without revealing which, and
//! binds K key images to the signer's row so that two signatures by the
//! same signer are publicly linkable.
use vstd::prelude::*;

use crate::bytes::append_bytes32;
use crate::bytes::append_slice;
use crate::bytes::bytes32_eq;
use crate::bytes::concat_bytes;
use crate::bytes::seq_views;
use crate::bytes::set_bytes32;
use crate::group::basepoint_mul;
use crate::group::hash_to_point_sha512;
use crate::group::hash_to_scalar_sha512;
use crate::group::msm;
use crate::group::multiscalar_mul;
use crate::group::p_add;
use crate::group::p_base_mul;
use crate::group::p_hash_sha512;
use crate::group::p_mul;
use crate::group::p_valid;
use crate::group::point_add;
use crate::group::point_is_valid;
use crate::group::point_mul;
use crate::group::s_canonical;
use crate::group::s_hash_sha512;
use crate::group::s_mul;
use crate::group::s_of_u64;
use crate::group::scalar_add;
use crate::group::scalar_from_u64;
use crate::group::scalar_mul;
use crate::group::scalar_random;
use crate::group::scalar_sub;
use crate::group::t_challenge;
use crate::group::transcript_challenge;

verus! {

/// A CLSAG signature: the initial challenge, one response scalar per ring
/// position, and one compressed key image per key row.
#[derive(Debug)]
pub struct Signature {
    pub challenge: [u8; 32],
    pub responses: Vec<[u8; 32]>,
    pub key_images: Vec<[u8; 32]>,
}

/// What verification can report.
#[derive(Debug)]
pub enum Error {
    /// The signature holds an amount of responses that does not match the
    /// number of public-key rows.
    IncorrectNumOfPubKeys,
    /// One of the key images supplied cannot be decompressed.
    BadKeyImages,
    /// The recomputed challenge differs from the challenge in the signature.
    ChallengeMismatch,
    /// A point cannot be correctly decompressed.
    BadPoint,
    /// An underlying failure of the ring-member arithmetic.
    MemberError(String),
}

/// The compressed encodings held by a matrix of 32-byte cells, row by row.
pub open spec fn matrix_views(m: Seq<Vec<[u8; 32]>>) -> Seq<Seq<Seq<u8>>> {
    Seq::new(m.len(), |i: int| seq_views(m[i]@))
}

/// The row-major concatenation of every compressed point of the matrix.
pub open spec fn ring_bytes(matrix: Seq<Seq<Seq<u8>>>) -> Seq<u8> {
    concat_bytes(matrix.map_values(|row: Seq<Seq<u8>>| concat_bytes(row)))
}

/// Every row of the matrix has exactly `kk` cells.
pub open spec fn matrix_wf(matrix: Seq<Seq<Seq<u8>>>, kk: int) -> bool {
    forall|i: int| 0 <= i < matrix.len() ==> (#[trigger] matrix[i]).len() == kk
}

/// Every cell of the matrix decompresses to a point.
pub open spec fn matrix_valid(matrix: Seq<Seq<Seq<u8>>>) -> bool {
    forall|i: int, j: int|
        0 <= i < matrix.len() && 0 <= j < matrix[i].len() ==> p_valid(#[trigger] matrix[i][j])
}

/// Every key image decompresses to a point.
pub open spec fn images_valid(images: Seq<Seq<u8>>) -> bool {
    forall|k: int| 0 <= k < images.len() ==> p_valid(#[trigger] images[k])
}

/// The k-th aggregation coefficient: a SHA-512 hash-to-scalar of the index
/// (as a scalar), the whole public matrix, every key image, and the
/// message, binding each key row into the combined challenge.
pub open spec fn agg_coeff(ring: Seq<u8>, images: Seq<Seq<u8>>, msg: Seq<u8>, k: int) -> Seq<u8> {
    s_hash_sha512(s_of_u64(k as u64) + ring + concat_bytes(images) + msg)
}

/// All K aggregation coefficients, one per key row.
pub open spec fn agg_coeffs(ring: Seq<u8>, images: Seq<Seq<u8>>, msg: Seq<u8>, kk: int) -> Seq<
    Seq<u8>,
> {
    Seq::new(kk as nat, |k: int| agg_coeff(ring, images, msg, k))
}

/// The per-round multi-scalar coefficients: each aggregation coefficient
/// times the running challenge.
pub open spec fn round_coeffs(mus: Seq<Seq<u8>>, c: Seq<u8>) -> Seq<Seq<u8>> {
    mus.map_values(|m: Seq<u8>| s_mul(m, c))
}

/// One round of the challenge ring: from the running challenge `c` at row
/// `row` with response `s`, the next challenge is the transcript challenge
/// over the ring bytes, `L = sum_k (c*mu_k)*P_k + s*G` and
/// `R = sum_k (c*mu_k)*I_k + s*Hp(P_0)`.
pub open spec fn clsag_round(
    ring: Seq<u8>,
    images: Seq<Seq<u8>>,
    mus: Seq<Seq<u8>>,
    row: Seq<Seq<u8>>,
    s: Seq<u8>,
    c: Seq<u8>,
) -> Seq<u8> {
    let l = p_add(msm(round_coeffs(mus, c), row), p_base_mul(s));
    let r = p_add(msm(round_coeffs(mus, c), images), p_mul(s, p_hash_sha512(row[0])));
    t_challenge(ring, l, r)
}

/// The challenge after the first `i` rounds of the ring, starting from the
/// signature's initial challenge `c0`.
pub open spec fn clsag_chain(
    ring: Seq<u8>,
    matrix: Seq<Seq<Seq<u8>>>,
    images: Seq<Seq<u8>>,
    mus: Seq<Seq<u8>>,
    responses: Seq<Seq<u8>>,
    c0: Seq<u8>,
    i: int,
) -> Seq<u8>
    decreases i,
{
    if i <= 0 {
        c0
    } else {
        clsag_round(
            ring,
            images,
            mus,
            matrix[i - 1],
            responses[i - 1],
            clsag_chain(ring, matrix, images, mus, responses, c0, i - 1),
        )
    }
}

/// The full verification verdict over the plain values of the public
/// matrix, the message and the signature fields, in the order the checks
/// are made: row count first, then decompression of every point, then the
/// challenge ring.
pub open spec fn clsag_verdict(
    matrix: Seq<Seq<Seq<u8>>>,
    msg: Seq<u8>,
    c0: Seq<u8>,
    responses: Seq<Seq<u8>>,
    images: Seq<Seq<u8>>,
) -> Result<(), Error> {
    if matrix.len() != responses.len() {
        Err(Error::IncorrectNumOfPubKeys)
    } else if !(matrix_valid(matrix) && images_valid(images)) {
        Err(Error::BadPoint)
    } else if clsag_chain(
        ring_bytes(matrix),
        matrix,
        images,
        agg_coeffs(ring_bytes(matrix), images, msg, images.len() as int),
        responses,
        c0,
        matrix.len() as int,
    ) != c0 {
        Err(Error::ChallengeMismatch)
    } else {
        Ok(())
    }
}

/// A public matrix whose row count differs from the signature's response
/// count is rejected as `IncorrectNumOfPubKeys`, whatever its content.
pub proof fn lemma_clsag_row_count_rejected(
    matrix: Seq<Seq<Seq<u8>>>,
    msg: Seq<u8>,
    c0: Seq<u8>,
    responses: Seq<Seq<u8>>,
    images: Seq<Seq<u8>>,
)
    requires
        matrix.len() != responses.len(),
    ensures
        clsag_verdict(matrix, msg, c0, responses, images) == Err::<(), Error>(
            Error::IncorrectNumOfPubKeys,
        ),
{
}

/// Row-major serialization of a matrix of compressed points.
fn matrix_to_bytes(pubkey_matrix: &Vec<Vec<[u8; 32]>>) -> (r: Vec<u8>)
    ensures
        r@ == ring_bytes(matrix_views(pubkey_matrix@)),
{
    let ghost matrix = matrix_views(pubkey_matrix@);
    let ghost rows = matrix.map_values(|row: Seq<Seq<u8>>| concat_bytes(row));
    let mut out: Vec<u8> = Vec::new();
    let n = pubkey_matrix.len();
    for i in 0..n
        invariant
            n == pubkey_matrix@.len(),
            matrix == matrix_views(pubkey_matrix@),
            rows == matrix.map_values(|row: Seq<Seq<u8>>| concat_bytes(row)),
            out@ == concat_bytes(rows.take(i as int)),
    {
        let m = pubkey_matrix[i].len();
        for j in 0..m
            invariant
                n == pubkey_matrix@.len(),
                i < n,
                m == pubkey_matrix@[i as int]@.len(),
                matrix == matrix_views(pubkey_matrix@),
                rows == matrix.map_values(|row: Seq<Seq<u8>>| concat_bytes(row)),
                out@ == concat_bytes(rows.take(i as int)) + concat_bytes(
                    matrix[i as int].take(j as int),
                ),
        {
            proof {
                assert(matrix[i as int].take(j + 1).drop_last() =~= matrix[i as int].take(j as int));
            }
            append_bytes32(&mut out, &pubkey_matrix[i][j]);
        }
        proof {
            assert(matrix[i as int].take(m as int) =~= matrix[i as int]);
            assert(rows.take(i + 1).drop_last() =~= rows.take(i as int));
            assert(rows.take(i + 1).last() == concat_bytes(matrix[i as int]));
        }
    }
    proof {
        assert(rows.take(n as int) =~= rows);
    }
    out
}

/// The serialized key images, in order.
fn images_to_bytes(images: &Vec<[u8; 32]>) -> (r: Vec<u8>)
    ensures
        r@ == concat_bytes(seq_views(images@)),
{
    let mut out: Vec<u8> = Vec::new();
    let n = images.len();
    for i in 0..n
        invariant
            n == images@.len(),
            out@ == concat_bytes(seq_views(images@).take(i as int)),
    {
        proof {
            assert(seq_views(images@).take(i + 1).drop_last() =~= seq_views(images@).take(i as int));
        }
        append_bytes32(&mut out, &images[i]);
    }
    proof {
        assert(seq_views(images@).take(n as int) =~= seq_views(images@));
    }
    out
}

/// The K aggregation coefficients for a ring, its key images and a message.
fn calc_aggregation_coefficients(
    pubkey_matrix_bytes: &Vec<u8>,
    key_images: &Vec<[u8; 32]>,
    msg: &[u8],
) -> (r: Vec<[u8; 32]>)
    ensures
        r@.len() == key_images@.len(),
        forall|k: int|
            0 <= k < r@.len() ==> (#[trigger] r@[k])@ == agg_coeff(
                pubkey_matrix_bytes@,
                seq_views(key_images@),
                msg@,
                k,
            ),
        forall|k: int| 0 <= k < r@.len() ==> s_canonical((#[trigger] r@[k])@),
{
    let kk = key_images.len();
    let images_bytes = images_to_bytes(key_images);
    let mut out: Vec<[u8; 32]> = Vec::new();
    for k in 0..kk
        invariant
            kk == key_images@.len(),
            images_bytes@ == concat_bytes(seq_views(key_images@)),
            out@.len() == k,
            forall|j: int|
                0 <= j < k ==> (#[trigger] out@[j])@ == agg_coeff(
                    pubkey_matrix_bytes@,
                    seq_views(key_images@),
                    msg@,
                    j,
                ),
            forall|j: int| 0 <= j < k ==> s_canonical((#[trigger] out@[j])@),
    {
        let idx = scalar_from_u64(k as u64);
        let mut data: Vec<u8> = Vec::new();
        append_bytes32(&mut data, &idx);
        append_slice(&mut data, pubkey_matrix_bytes.as_slice());
        append_slice(&mut data, images_bytes.as_slice());
        append_slice(&mut data, msg);
        proof {
            assert(data@ =~= s_of_u64(k as u64) + pubkey_matrix_bytes@ + concat_bytes(
                seq_views(key_images@),
            ) + msg@);
        }
        out.push(hash_to_scalar_sha512(data.as_slice()));
    }
    out
}

/// The left-to-right fold of scalar-point products, one verified step at a
/// time: the readable reference for the multi-scalar multiplication.
fn msm_fold(scalars: &Vec<[u8; 32]>, points: &Vec<[u8; 32]>) -> (r: [u8; 32])
    requires
        scalars@.len() == points@.len(),
        scalars@.len() >= 1,
        forall|i: int| 0 <= i < points@.len() ==> p_valid((#[trigger] points@[i])@),
    ensures
        r@ == msm(seq_views(scalars@), seq_views(points@)),
        p_valid(r@),
{
    let ghost sv = seq_views(scalars@);
    let ghost pv = seq_views(points@);
    let n = scalars.len();
    let mut acc = point_mul(scalars[0], points[0]);
    proof {
        assert(acc@ == msm(sv.take(1), pv.take(1)));
    }
    for i in 1..n
        invariant
            n == scalars@.len() == points@.len(),
            sv == seq_views(scalars@),
            pv == seq_views(points@),
            forall|j: int| 0 <= j < points@.len() ==> p_valid((#[trigger] points@[j])@),
            acc@ == msm(sv.take(i as int), pv.take(i as int)),
            p_valid(acc@),
    {
        proof {
            assert(sv.take(i + 1).drop_last() =~= sv.take(i as int));
            assert(pv.take(i + 1).drop_last() =~= pv.take(i as int));
        }
        acc = point_add(acc, point_mul(scalars[i], points[i]));
    }
    proof {
        assert(sv.take(n as int) =~= sv);
        assert(pv.take(n as int) =~= pv);
    }
    acc
}

/// Each aggregation coefficient times the running challenge, the scalar
/// vector of one multi-scalar multiplication round.
fn round_coefficients(mus: &Vec<[u8; 32]>, c: &[u8; 32]) -> (r: Vec<[u8; 32]>)
    ensures
        r@.len() == mus@.len(),
        forall|k: int| 0 <= k < r@.len() ==> (#[trigger] r@[k])@ == s_mul(mus@[k]@, c@),
        seq_views(r@) =~= round_coeffs(seq_views(mus@), c@),
{
    let kk = mus.len();
    let mut out: Vec<[u8; 32]> = Vec::new();
    for k in 0..kk
        invariant
            kk == mus@.len(),
            out@.len() == k,
            forall|j: int| 0 <= j < k ==> (#[trigger] out@[j])@ == s_mul(mus@[j]@, c@),
    {
        out.push(scalar_mul(mus[k], *c));
    }
    out
}

impl Signature {
    /// The byte strings of the response scalars, in ring order.
    pub open spec fn spec_responses(&self) -> Seq<Seq<u8>> {
        seq_views(self.responses@)
    }

    /// The byte strings of the key images, in key-row order.
    pub open spec fn spec_images(&self) -> Seq<Seq<u8>> {
        seq_views(self.key_images@)
    }

    /// Row-major serialization of the public matrix fed to verification.
    pub fn pubkeys_to_bytes(&self, pubkey_matrix: &Vec<Vec<[u8; 32]>>) -> (r: Vec<u8>)
        ensures
            r@ == ring_bytes(matrix_views(pubkey_matrix@)),
    {
        matrix_to_bytes(pubkey_matrix)
    }

    /// The memory taken by this signature: the struct itself plus one
    /// 32-byte scalar per response and one 32-byte compressed point per
    /// key image.
    pub fn signature_size(&self) -> (r: usize)
        requires
            vstd::layout::size_of::<Signature>() + self.responses@.len() * vstd::layout::size_of::<
                [u8; 32],
            >() + self.key_images@.len() * vstd::layout::size_of::<[u8; 32]>() <= usize::MAX,
        ensures
            r == vstd::layout::size_of::<Signature>() + self.responses@.len()
                * vstd::layout::size_of::<[u8; 32]>() + self.key_images@.len()
                * vstd::layout::size_of::<[u8; 32]>(),
    {
        let size = core::mem::size_of::<Signature>() + self.responses.len() * core::mem::size_of::<
            [u8; 32],
        >() + self.key_images.len() * core::mem::size_of::<[u8; 32]>();
        size
    }

    /// Verify this signature against a public matrix and a message by
    /// walking the challenge ring one round at a time, the readable
    /// reference path.  The verdict is exactly `clsag_verdict`; the
    /// optimized path below ensures the same verdict, so the two paths
    /// agree on every input.
    pub fn verify(&self, public_keys: &mut Vec<Vec<[u8; 32]>>, msg: &[u8]) -> (r: Result<(), Error>)
        requires
            matrix_wf(matrix_views(old(public_keys)@), self.key_images@.len() as int),
            self.key_images@.len() >= 1,
            ring_bytes(matrix_views(old(public_keys)@)).len() <= 0xffff_ffff,
        ensures
            *final(public_keys) == *old(public_keys),
            r == clsag_verdict(
                matrix_views(old(public_keys)@),
                msg@,
                self.challenge@,
                self.spec_responses(),
                self.spec_images(),
            ),
    {
        let ghost matrix = matrix_views(public_keys@);
        let n = public_keys.len();
        let kk = self.key_images.len();
        if n != self.responses.len() {
            return Err(Error::IncorrectNumOfPubKeys);
        }
        for i in 0..n
            invariant
                n == public_keys@.len() == self.responses@.len(),
                kk == self.key_images@.len(),
                matrix == matrix_views(public_keys@),
                matrix_wf(matrix, kk as int),
                forall|a: int, b: int|
                    0 <= a < i && 0 <= b < matrix[a].len() ==> p_valid(#[trigger] matrix[a][b]),
        {
            for j in 0..kk
                invariant
                    n == public_keys@.len() == self.responses@.len(),
                    kk == self.key_images@.len(),
                    i < n,
                    matrix == matrix_views(public_keys@),
                    matrix_wf(matrix, kk as int),
                    forall|a: int, b: int|
                        0 <= a < i && 0 <= b < matrix[a].len() ==> p_valid(#[trigger] matrix[a][b]),
                    forall|b: int| 0 <= b < j ==> p_valid(#[trigger] matrix[i as int][b]),
            {
                proof {
                    assert(matrix[i as int].len() == kk);
                    assert(matrix[i as int] == seq_views(public_keys@[i as int]@));
                }
                if !point_is_valid(&public_keys[i][j]) {
                    proof {
                        assert(!p_valid(matrix[i as int][j as int]));
                        assert(!matrix_valid(matrix));
                    }
                    return Err(Error::BadPoint);
                }
            }
        }
        for k in 0..kk
            invariant
                n == public_keys@.len() == self.responses@.len(),
                kk == self.key_images@.len(),
                matrix == matrix_views(public_keys@),
                matrix_valid(matrix),
                forall|b: int| 0 <= b < k ==> p_valid(#[trigger] self.spec_images()[b]),
        {
            if !point_is_valid(&self.key_images[k]) {
                proof {
                    assert(!p_valid(self.spec_images()[k as int]));
                    assert(!images_valid(self.spec_images()));
                }
                return Err(Error::BadPoint);
            }
        }
        proof {
            assert(matrix_valid(matrix));
            assert(images_valid(self.spec_images()));
        }

        let ring = matrix_to_bytes(public_keys);
        let mus = calc_aggregation_coefficients(&ring, &self.key_images, msg);
        let ghost mus_spec = agg_coeffs(ring@, self.spec_images(), msg@, kk as int);
        proof {
            assert(seq_views(mus@) =~= mus_spec);
        }

        let mut challenge: [u8; 32] = self.challenge;
        for i in 0..n
            invariant
                n == public_keys@.len() == self.responses@.len(),
                kk == self.key_images@.len() == mus@.len(),
                kk >= 1,
                matrix == matrix_views(public_keys@),
                matrix_wf(matrix, kk as int),
                matrix_valid(matrix),
                images_valid(self.spec_images()),
                ring@ == ring_bytes(matrix),
                ring@.len() <= 0xffff_ffff,
                seq_views(mus@) == mus_spec,
                mus_spec == agg_coeffs(ring@, self.spec_images(), msg@, kk as int),
                challenge@ == clsag_chain(
                    ring@,
                    matrix,
                    self.spec_images(),
                    mus_spec,
                    self.spec_responses(),
                    self.challenge@,
                    i as int,
                ),
        {
            proof {
                assert(matrix[i as int].len() == kk);
                assert(matrix[i as int] == seq_views(public_keys@[i as int]@));
                assert forall|b: int| 0 <= b < public_keys@[i as int]@.len() implies p_valid(
                    (#[trigger] public_keys@[i as int]@[b])@,
                ) by {
                    assert(p_valid(matrix[i as int][b]));
                }
                assert forall|b: int| 0 <= b < self.key_images@.len() implies p_valid(
                    (#[trigger] self.key_images@[b])@,
                ) by {
                    assert(p_valid(self.spec_images()[b]));
                }
            }
            let coeffs = round_coefficients(&mus, &challenge);
            let lsum = msm_fold(&coeffs, &public_keys[i]);
            let l = point_add(lsum, basepoint_mul(self.responses[i]));
            let cell0: [u8; 32] = public_keys[i][0];
            let hp = hash_to_point_sha512(cell0.as_slice());
            let rsum = msm_fold(&coeffs, &self.key_images);
            let rp = point_add(rsum, point_mul(self.responses[i], hp));
            challenge = transcript_challenge(ring.as_slice(), &l, &rp);
        }
        if bytes32_eq(&challenge, &self.challenge) {
            Ok(())
        } else {
            Err(Error::ChallengeMismatch)
        }
    }

    /// Verify this signature through the multi-scalar-multiplication path:
    /// the response terms `s_i*G` and `s_i*Hp(P_i0)` are precomputed once
    /// each, and each round's sums are taken in a single multi-scalar
    /// multiplication.  The verdict is exactly `clsag_verdict`, the same as
    /// `verify`'s, so the two paths agree on every input.
    pub fn optimised_verify(&self, public_keys: &mut Vec<Vec<[u8; 32]>>, msg: &[u8]) -> (r: Result<
        (),
        Error,
    >)
        requires
            matrix_wf(matrix_views(old(public_keys)@), self.key_images@.len() as int),
            self.key_images@.len() >= 1,
            ring_bytes(matrix_views(old(public_keys)@)).len() <= 0xffff_ffff,
        ensures
            *final(public_keys) == *old(public_keys),
            r == clsag_verdict(
                matrix_views(old(public_keys)@),
                msg@,
                self.challenge@,
                self.spec_responses(),
                self.spec_images(),
            ),
    {
        let ghost matrix = matrix_views(public_keys@);
        let n = public_keys.len();
        let kk = self.key_images.len();
        if n != self.responses.len() {
            return Err(Error::IncorrectNumOfPubKeys);
        }
        for i in 0..n
            invariant
                n == public_keys@.len() == self.responses@.len(),
                kk == self.key_images@.len(),
                matrix == matrix_views(public_keys@),
                matrix_wf(matrix, kk as int),
                forall|a: int, b: int|
                    0 <= a < i && 0 <= b < matrix[a].len() ==> p_valid(#[trigger] matrix[a][b]),
        {
            for j in 0..kk
                invariant
                    n == public_keys@.len() == self.responses@.len(),
                    kk == self.key_images@.len(),
                    i < n,
                    matrix == matrix_views(public_keys@),
                    matrix_wf(matrix, kk as int),
                    forall|a: int, b: int|
                        0 <= a < i && 0 <= b < matrix[a].len() ==> p_valid(#[trigger] matrix[a][b]),
                    forall|b: int| 0 <= b < j ==> p_valid(#[trigger] matrix[i as int][b]),
            {
                proof {
                    assert(matrix[i as int].len() == kk);
                    assert(matrix[i as int] == seq_views(public_keys@[i as int]@));
                }
                if !point_is_valid(&public_keys[i][j]) {
                    proof {
                        assert(!p_valid(matrix[i as int][j as int]));
                        assert(!matrix_valid(matrix));
                    }
                    return Err(Error::BadPoint);
                }
            }
        }
        for k in 0..kk
            invariant
                n == public_keys@.len() == self.responses@.len(),
                kk == self.key_images@.len(),
                matrix == matrix_views(public_keys@),
                matrix_valid(matrix),
                forall|b: int| 0 <= b < k ==> p_valid(#[trigger] self.spec_images()[b]),
        {
            if !point_is_valid(&self.key_images[k]) {
                proof {
                    assert(!p_valid(self.spec_images()[k as int]));
                    assert(!images_valid(self.spec_images()));
                }
                return Err(Error::BadPoint);
            }
        }
        proof {
            assert(matrix_valid(matrix));
            assert(images_valid(self.spec_images()));
        }

        // Precompute every response * basepoint and every response times
        // the hashed first-column key of its row.
        let mut response_points: Vec<[u8; 32]> = Vec::new();
        let mut response_hashed_points: Vec<[u8; 32]> = Vec::new();
        for i in 0..n
            invariant
                n == public_keys@.len() == self.responses@.len(),
                kk == self.key_images@.len(),
                kk >= 1,
                matrix == matrix_views(public_keys@),
                matrix_wf(matrix, kk as int),
                response_points@.len() == i,
                response_hashed_points@.len() == i,
                forall|j: int|
                    0 <= j < i ==> (#[trigger] response_points@[j])@ == p_base_mul(
                        self.spec_responses()[j],
                    ),
                forall|j: int|
                    0 <= j < i ==> (#[trigger] response_hashed_points@[j])@ == p_mul(
                        self.spec_responses()[j],
                        p_hash_sha512(matrix[j][0]),
                    ),
                forall|j: int| 0 <= j < i ==> p_valid((#[trigger] response_points@[j])@),
                forall|j: int| 0 <= j < i ==> p_valid((#[trigger] response_hashed_points@[j])@),
        {
            proof {
                assert(matrix[i as int].len() == kk);
                assert(matrix[i as int] == seq_views(public_keys@[i as int]@));
            }
            response_points.push(basepoint_mul(self.responses[i]));
            let cell0: [u8; 32] = public_keys[i][0];
            let hp = hash_to_point_sha512(cell0.as_slice());
            response_hashed_points.push(point_mul(self.responses[i], hp));
        }

        let ring = matrix_to_bytes(public_keys);
        let mus = calc_aggregation_coefficients(&ring, &self.key_images, msg);
        let ghost mus_spec = agg_coeffs(ring@, self.spec_images(), msg@, kk as int);
        proof {
            assert(seq_views(mus@) =~= mus_spec);
        }

        let mut challenge: [u8; 32] = self.challenge;
        for i in 0..n
            invariant
                n == public_keys@.len() == self.responses@.len(),
                kk == self.key_images@.len() == mus@.len(),
                kk >= 1,
                matrix == matrix_views(public_keys@),
                matrix_wf(matrix, kk as int),
                matrix_valid(matrix),
                images_valid(self.spec_images()),
                response_points@.len() == n,
                response_hashed_points@.len() == n,
                forall|j: int|
                    0 <= j < n ==> (#[trigger] response_points@[j])@ == p_base_mul(
                        self.spec_responses()[j],
                    ),
                forall|j: int|
                    0 <= j < n ==> (#[trigger] response_hashed_points@[j])@ == p_mul(
                        self.spec_responses()[j],
                        p_hash_sha512(matrix[j][0]),
                    ),
                forall|j: int| 0 <= j < n ==> p_valid((#[trigger] response_points@[j])@),
                forall|j: int| 0 <= j < n ==> p_valid((#[trigger] response_hashed_points@[j])@),
                ring@ == ring_bytes(matrix),
                ring@.len() <= 0xffff_ffff,
                seq_views(mus@) == mus_spec,
                mus_spec == agg_coeffs(ring@, self.spec_images(), msg@, kk as int),
                challenge@ == clsag_chain(
                    ring@,
                    matrix,
                    self.spec_images(),
                    mus_spec,
                    self.spec_responses(),
                    self.challenge@,
                    i as int,
                ),
        {
            proof {
                assert(matrix[i as int].len() == kk);
                assert(matrix[i as int] == seq_views(public_keys@[i as int]@));
                assert forall|b: int| 0 <= b < public_keys@[i as int]@.len() implies p_valid(
                    (#[trigger] public_keys@[i as int]@[b])@,
                ) by {
                    assert(p_valid(matrix[i as int][b]));
                }
                assert forall|b: int| 0 <= b < self.key_images@.len() implies p_valid(
                    (#[trigger] self.key_images@[b])@,
                ) by {
                    assert(p_valid(self.spec_images()[b]));
                }
            }
            let coeffs = round_coefficients(&mus, &challenge);
            let lsum = multiscalar_mul(&coeffs, &public_keys[i]);
            let l = point_add(lsum, response_points[i]);
            let rsum = multiscalar_mul(&coeffs, &self.key_images);
            let rp = point_add(rsum, response_hashed_points[i]);
            challenge = transcript_challenge(ring.as_slice(), &l, &rp);
        }
        if bytes32_eq(&challenge, &self.challenge) {
            Ok(())
        } else {
            Err(Error::ChallengeMismatch)
        }
    }
}

/// Sign a message over an N-by-K public matrix from row `secret_index`,
/// whose K secret scalars the signer holds.  All K key images are anchored
/// to the hash of the signer's first-column key, which keeps the ring
/// consistent; the challenge ring is closed with the signer's response, so
/// only the deterministic parts of the signature are pinned down: its
/// shape, the well-formedness of every scalar, and the key images.
/// Signing fails only when some matrix cell does not decompress.
pub fn sign(
    secret_index: usize,
    secret_keys: &Vec<[u8; 32]>,
    public_keys: &Vec<Vec<[u8; 32]>>,
    msg: &[u8],
) -> (r: Result<Signature, Error>)
    requires
        public_keys@.len() >= 1,
        public_keys@.len() <= usize::MAX / 2,
        secret_index < public_keys@.len(),
        secret_keys@.len() >= 1,
        matrix_wf(matrix_views(public_keys@), secret_keys@.len() as int),
        ring_bytes(matrix_views(public_keys@)).len() <= 0xffff_ffff,
    ensures
        match r {
            Ok(sig) => {
                &&& matrix_valid(matrix_views(public_keys@))
                &&& sig.responses@.len() == public_keys@.len()
                &&& sig.key_images@.len() == secret_keys@.len()
                &&& s_canonical(sig.challenge@)
                &&& forall|i: int|
                    0 <= i < sig.responses@.len() ==> s_canonical(#[trigger] sig.spec_responses()[i])
                &&& forall|k: int|
                    0 <= k < secret_keys@.len() ==> #[trigger] sig.spec_images()[k] == p_mul(
                        secret_keys@[k]@,
                        p_hash_sha512(matrix_views(public_keys@)[secret_index as int][0]),
                    )
                &&& images_valid(sig.spec_images())
            },
            Err(e) => !matrix_valid(matrix_views(public_keys@)) && e == Error::BadPoint,
        },
{
    let ghost matrix = matrix_views(public_keys@);
    let n = public_keys.len();
    let kk = secret_keys.len();

    for i in 0..n
        invariant
            n == public_keys@.len(),
            kk == secret_keys@.len(),
            matrix == matrix_views(public_keys@),
            matrix_wf(matrix, kk as int),
            forall|a: int, b: int|
                0 <= a < i && 0 <= b < matrix[a].len() ==> p_valid(#[trigger] matrix[a][b]),
    {
        for j in 0..kk
            invariant
                n == public_keys@.len(),
                kk == secret_keys@.len(),
                i < n,
                matrix == matrix_views(public_keys@),
                matrix_wf(matrix, kk as int),
                forall|a: int, b: int|
                    0 <= a < i && 0 <= b < matrix[a].len() ==> p_valid(#[trigger] matrix[a][b]),
                forall|b: int| 0 <= b < j ==> p_valid(#[trigger] matrix[i as int][b]),
        {
            proof {
                assert(matrix[i as int].len() == kk);
                assert(matrix[i as int] == seq_views(public_keys@[i as int]@));
            }
            if !point_is_valid(&public_keys[i][j]) {
                proof {
                    assert(!p_valid(matrix[i as int][j as int]));
                    assert(!matrix_valid(matrix));
                }
                return Err(Error::BadPoint);
            }
        }
    }
    proof {
        assert(matrix_valid(matrix));
        assert(matrix[secret_index as int].len() == kk);
        assert(matrix[secret_index as int] == seq_views(public_keys@[secret_index as int]@));
    }

    // All K key images hang off the hash of the signer's first-column key.
    let cell0: [u8; 32] = public_keys[secret_index][0];
    let hp = hash_to_point_sha512(cell0.as_slice());
    let mut key_images: Vec<[u8; 32]> = Vec::new();
    for k in 0..kk
        invariant
            kk == secret_keys@.len(),
            hp@ == p_hash_sha512(matrix[secret_index as int][0]),
            p_valid(hp@),
            key_images@.len() == k,
            forall|j: int|
                0 <= j < k ==> (#[trigger] key_images@[j])@ == p_mul(
                    secret_keys@[j]@,
                    p_hash_sha512(matrix[secret_index as int][0]),
                ),
            forall|j: int| 0 <= j < k ==> p_valid((#[trigger] key_images@[j])@),
    {
        key_images.push(point_mul(secret_keys[k], hp));
    }

    let ring = matrix_to_bytes(public_keys);
    let mus = calc_aggregation_coefficients(&ring, &key_images, msg);

    // Open the ring at the signer's row with a fresh nonce.
    let alpha = scalar_random();
    let l_start = basepoint_mul(alpha);
    let r_start = point_mul(alpha, hp);
    let mut c = transcript_challenge(ring.as_slice(), &l_start, &r_start);

    // The challenge just computed sits at position secret_index + 1; when
    // the ring has wrapped to position zero it is the emitted challenge.
    let mut c0: [u8; 32] = c;

    // Fill the responses with canonical placeholders, then walk the ring
    // from the signer's successor round by round with fresh random
    // responses.
    let mut responses: Vec<[u8; 32]> = Vec::new();
    for i in 0..n
        invariant
            responses@.len() == i,
            forall|j: int| 0 <= j < i ==> s_canonical((#[trigger] responses@[j])@),
    {
        responses.push(scalar_from_u64(0));
    }

    for step in 1..n
        invariant
            n == public_keys@.len() == responses@.len(),
            n >= 1,
            n <= usize::MAX / 2,
            secret_index < n,
            kk == secret_keys@.len() == mus@.len() == key_images@.len(),
            kk >= 1,
            matrix == matrix_views(public_keys@),
            matrix_wf(matrix, kk as int),
            matrix_valid(matrix),
            ring@ == ring_bytes(matrix),
            ring@.len() <= 0xffff_ffff,
            forall|j: int| 0 <= j < kk ==> p_valid((#[trigger] key_images@[j])@),
            forall|j: int| 0 <= j < kk ==> s_canonical((#[trigger] mus@[j])@),
            forall|j: int| 0 <= j < n ==> s_canonical((#[trigger] responses@[j])@),
            s_canonical(c@),
            s_canonical(c0@),
    {
        let idx = (secret_index + step) % n;
        let s_i = scalar_random();
        set_bytes32(&mut responses, idx, s_i);
        proof {
            assert(matrix[idx as int].len() == kk);
            assert(matrix[idx as int] == seq_views(public_keys@[idx as int]@));
            assert forall|b: int| 0 <= b < public_keys@[idx as int]@.len() implies p_valid(
                (#[trigger] public_keys@[idx as int]@[b])@,
            ) by {
                assert(p_valid(matrix[idx as int][b]));
            }
        }
        let coeffs = round_coefficients(&mus, &c);
        let lsum = msm_fold(&coeffs, &public_keys[idx]);
        let l = point_add(lsum, basepoint_mul(s_i));
        let celli: [u8; 32] = public_keys[idx][0];
        let hpi = hash_to_point_sha512(celli.as_slice());
        let rsum = msm_fold(&coeffs, &key_images);
        let rp = point_add(rsum, point_mul(s_i, hpi));
        c = transcript_challenge(ring.as_slice(), &l, &rp);
        if idx == n - 1 {
            c0 = c;
        }
    }

    // Close the ring: the signer's response is
    // alpha - c_signer * sum_k mu_k * x_k.
    let mut acc = scalar_from_u64(0);
    for k in 0..kk
        invariant
            kk == secret_keys@.len() == mus@.len(),
            s_canonical(acc@),
    {
        acc = scalar_add(acc, scalar_mul(mus[k], secret_keys[k]));
    }
    let s_ell = scalar_sub(alpha, scalar_mul(c, acc));
    set_bytes32(&mut responses, secret_index, s_ell);

    Ok(Signature { challenge: c0, responses, key_images })
}

/// Sign and then check the emitted signature with the reference verifier
/// before handing it out.  The bare signer cannot promise over the
/// uninterpreted group operations that its challenge ring closes, so this
/// function tests the emitted signature instead: `Some` carries a
/// signature whose verdict over this matrix and message is `Ok` (for both
/// verification paths, which share that verdict).  `None` arises when some
/// matrix cell does not decompress, or if the emitted signature failed the
/// check, which honest group arithmetic never produces.
pub fn checked_sign(
    secret_index: usize,
    secret_keys: &Vec<[u8; 32]>,
    public_keys: &mut Vec<Vec<[u8; 32]>>,
    msg: &[u8],
) -> (r: Option<Signature>)
    requires
        old(public_keys)@.len() >= 1,
        old(public_keys)@.len() <= usize::MAX / 2,
        secret_index < old(public_keys)@.len(),
        secret_keys@.len() >= 1,
        matrix_wf(matrix_views(old(public_keys)@), secret_keys@.len() as int),
        ring_bytes(matrix_views(old(public_keys)@)).len() <= 0xffff_ffff,
    ensures
        *final(public_keys) == *old(public_keys),
        match r {
            Some(sig) => {
                &&& clsag_verdict(
                    matrix_views(old(public_keys)@),
                    msg@,
                    sig.challenge@,
                    sig.spec_responses(),
                    sig.spec_images(),
                ) == Ok::<(), Error>(())
                &&& sig.responses@.len() == old(public_keys)@.len()
                &&& sig.key_images@.len() == secret_keys@.len()
                &&& forall|k: int|
                    0 <= k < secret_keys@.len() ==> #[trigger] sig.spec_images()[k] == p_mul(
                        secret_keys@[k]@,
                        p_hash_sha512(matrix_views(old(public_keys)@)[secret_index as int][0]),
                    )
            },
            None => true,
        },
{
    let sig = match sign(secret_index, secret_keys, public_keys, msg) {
        Ok(sig) => sig,
        Err(_) => {
            return None;
        },
    };
    match sig.verify(public_keys, msg) {
        Ok(()) => Some(sig),
        Err(_) => None,
    }
}

} // verus!
