//! A Fujisaki-style traceable ring signature scheme.
//!
//! Signing is bound to a tag (a ring of public keys plus an issue label).
//! Two signatures under the same tag on different messages by the same
//! signer reveal the signer's ring index; two signatures on the same message
//! by the same signer are recognizable as linked.
use vstd::prelude::*;

use crate::bytes::append_bytes32;
use crate::bytes::append_slice;
use crate::bytes::bytes32_eq;
use crate::bytes::byte_vec;
use crate::bytes::concat_bytes;
use crate::bytes::read_bytes32;
use crate::bytes::set_bytes32;
use crate::group::basepoint_mul;
use crate::group::blake_hash_to_point;
use crate::group::blake_hash_to_scalar;
use crate::group::blake_to_point;
use crate::group::blake_to_scalar;
use crate::group::p_add;
use crate::group::p_mul;
use crate::group::p_sub;
use crate::group::p_base_mul;
use crate::group::p_valid;
use crate::group::point_add;
use crate::group::point_is_valid;
use crate::group::point_mul;
use crate::group::point_sub;
use crate::group::s_add;
use crate::group::s_canonical;
use crate::group::s_inv;
use crate::group::s_mul;
use crate::group::s_of_u64;
use crate::group::s_reduce;
use crate::group::scalar_add;
use crate::group::scalar_from_u64;
use crate::group::scalar_invert;
use crate::group::scalar_is_canonical;
use crate::group::scalar_mul;
use crate::group::scalar_random;
use crate::group::scalar_reduce;
use crate::group::scalar_sub;

verus! {

/// The ring sizes the timing drivers sweep over.
pub const RING_SIZES: [usize; 7] = [16, 32, 64, 128, 256, 512, 1024];

/// The persona string seeding each of the scheme's three independent
/// hashes: `rust-ringsig-` followed by one tail character.
pub open spec fn domain_persona(tail: u8) -> Seq<u8> {
    seq![114u8, 117u8, 115u8, 116u8, 45u8, 114u8, 105u8, 110u8, 103u8, 115u8, 105u8, 103u8, 45u8, tail]
}

/// The persona bytes, built at run time: `rust-ringsig-` plus the tail.
fn domain_bytes(tail: u8) -> (r: Vec<u8>)
    ensures
        r@ == domain_persona(tail),
{
    let mut v: Vec<u8> = Vec::new();
    v.push(114);
    v.push(117);
    v.push(115);
    v.push(116);
    v.push(45);
    v.push(114);
    v.push(105);
    v.push(110);
    v.push(103);
    v.push(115);
    v.push(105);
    v.push(103);
    v.push(45);
    v.push(tail);
    proof {
        assert(v@ =~= domain_persona(tail));
    }
    v
}

/// A public key: the canonical compressed encoding of a group point.
#[derive(Clone, Debug, Eq, PartialEq)]
pub struct PublicKey(pub(crate) [u8; 32]);

impl PublicKey {
    /// The 32 bytes of the compressed point.
    pub closed spec fn spec_bytes(&self) -> Seq<u8> {
        self.0@
    }

    /// A public key is well formed when it holds 32 bytes that decompress
    /// to a point.
    pub open spec fn wf(&self) -> bool {
        self.spec_bytes().len() == 32 && p_valid(self.spec_bytes())
    }

    /// Serialize this public key to 32 bytes
    pub fn as_bytes(&self) -> (r: Vec<u8>)
        ensures
            r@ == self.spec_bytes(),
    {
        let mut out: Vec<u8> = Vec::new();
        append_bytes32(&mut out, &self.0);
        out
    }

    /// Deserialize this public key from 32 bytes
    pub fn from_bytes(bytes: &[u8]) -> (r: Option<PublicKey>)
        ensures
            match r {
                Some(pk) => bytes@.len() == 32 && p_valid(bytes@) && pk.spec_bytes() == bytes@
                    && pk.wf(),
                None => !(bytes@.len() == 32 && p_valid(bytes@)),
            },
    {
        if bytes.len() != 32 {
            return None;
        }
        let arr = read_bytes32(bytes, 0);
        proof {
            assert(arr@ =~= bytes@);
        }
        if point_is_valid(&arr) {
            Some(PublicKey(arr))
        } else {
            None
        }
    }
}

/// A private key: a canonical scalar together with the compressed public
/// point it was issued with.
#[derive(Clone, Debug, Eq, PartialEq)]
pub struct PrivateKey(pub(crate) [u8; 32], pub(crate) [u8; 32]);

impl PrivateKey {
    /// The 32 scalar bytes.
    pub closed spec fn spec_scalar(&self) -> Seq<u8> {
        self.0@
    }

    /// The 32 bytes of the compressed public point.
    pub closed spec fn spec_pub(&self) -> Seq<u8> {
        self.1@
    }

    /// A private key is well formed when the scalar is canonical (which
    /// includes its 32-byte length) and the public half holds 32 bytes that
    /// decompress to a point.
    pub open spec fn wf(&self) -> bool {
        s_canonical(self.spec_scalar()) && self.spec_pub().len() == 32 && p_valid(self.spec_pub())
    }

    /// Serialize this private key to 64 bytes
    pub fn as_bytes(&self) -> (r: Vec<u8>)
        ensures
            r@ == self.spec_scalar() + self.spec_pub(),
    {
        let mut out: Vec<u8> = Vec::new();
        append_bytes32(&mut out, &self.0);
        append_bytes32(&mut out, &self.1);
        out
    }

    /// Deserialize this private key from 64 bytes
    pub fn from_bytes(bytes: &[u8]) -> (r: Option<PrivateKey>)
        ensures
            match r {
                Some(k) => bytes@.len() == 64 && s_canonical(bytes@.subrange(0, 32)) && p_valid(
                    bytes@.subrange(32, 64),
                ) && k.spec_scalar() == bytes@.subrange(0, 32) && k.spec_pub() == bytes@.subrange(
                    32,
                    64,
                ) && k.wf(),
                None => !(bytes@.len() == 64 && s_canonical(bytes@.subrange(0, 32)) && p_valid(
                    bytes@.subrange(32, 64),
                )),
            },
    {
        if bytes.len() != 64 {
            return None;
        }
        let scalar = read_bytes32(bytes, 0);
        let point = read_bytes32(bytes, 32);
        if !scalar_is_canonical(&scalar) {
            return None;
        }
        if !point_is_valid(&point) {
            return None;
        }
        Some(PrivateKey(scalar, point))
    }
}

/// The tag pinning a signing context: an ordered ring of public keys and an
/// issue label.
#[derive(Clone, Debug, Eq, PartialEq)]
pub struct Tag {
    pub pubkeys: Vec<PublicKey>,
    pub issue: Vec<u8>,
}

impl Tag {
    /// The compressed encodings of the ring keys, in ring order.
    pub open spec fn spec_pubkeys(&self) -> Seq<Seq<u8>> {
        self.pubkeys@.map_values(|k: PublicKey| k.spec_bytes())
    }

    /// A tag is well formed when every ring key is.
    pub open spec fn wf(&self) -> bool {
        forall|i: int| 0 <= i < self.pubkeys@.len() ==> (#[trigger] self.pubkeys@[i]).wf()
    }

    /// What every hash of the scheme absorbs first: all compressed ring
    /// keys in order, then the issue bytes.
    pub open spec fn spec_hash_input(&self) -> Seq<u8> {
        concat_bytes(self.spec_pubkeys()) + self.issue@
    }

    /// The bytes that each of the scheme's hashes absorbs for this tag.
    fn hash_bytes(&self) -> (r: Vec<u8>)
        ensures
            r@ == self.spec_hash_input(),
    {
        let mut out: Vec<u8> = Vec::new();
        let n = self.pubkeys.len();
        for i in 0..n
            invariant
                n == self.pubkeys@.len(),
                out@ == concat_bytes(self.spec_pubkeys().take(i as int)),
        {
            proof {
                assert(self.spec_pubkeys().take(i + 1).drop_last() =~= self.spec_pubkeys().take(
                    i as int,
                ));
                assert(self.spec_pubkeys().take(i + 1).last() == self.pubkeys@[i as int].spec_bytes());
            }
            append_bytes32(&mut out, &self.pubkeys[i].0);
        }
        proof {
            assert(self.spec_pubkeys().take(n as int) =~= self.spec_pubkeys());
        }
        append_slice(&mut out, self.issue.as_slice());
        out
    }
}

/// The ring-wide base point `h`: the domain-0 hash of the tag, mapped onto
/// the group.
pub open spec fn trs_h(pks: Seq<Seq<u8>>, issue: Seq<u8>) -> Seq<u8> {
    blake_to_point(domain_persona(48), concat_bytes(pks) + issue)
}

/// The message anchor `A0`: the domain-1 hash of the tag followed by the
/// message, mapped onto the group.
pub open spec fn trs_a0(pks: Seq<Seq<u8>>, issue: Seq<u8>, msg: Seq<u8>) -> Seq<u8> {
    blake_to_point(domain_persona(49), concat_bytes(pks) + issue + msg)
}

/// The pseudonym at ring position `i`: `A0 + (i+1) * A1`.  The index enters
/// the arithmetic one-based, so that the signer can divide by it.
pub open spec fn trs_sigma(a0: Seq<u8>, aa1: Seq<u8>, i: int) -> Seq<u8> {
    p_add(a0, p_mul(s_of_u64((i + 1) as u64), aa1))
}

/// A traceable ring signature: the point `A1` and one challenge/response
/// scalar pair per ring position.
#[derive(Debug, Eq, PartialEq, Clone)]
pub struct Signature {
    pub(crate) aa1: [u8; 32],
    pub(crate) cs: Vec<[u8; 32]>,
    pub(crate) zs: Vec<[u8; 32]>,
}

impl Signature {
    /// The compressed encoding of `A1`.
    pub closed spec fn spec_aa1(&self) -> Seq<u8> {
        self.aa1@
    }

    /// The challenge scalars, one per ring position.
    pub closed spec fn spec_cs(&self) -> Seq<Seq<u8>> {
        crate::bytes::seq_views(self.cs@)
    }

    /// The response scalars, one per ring position.
    pub closed spec fn spec_zs(&self) -> Seq<Seq<u8>> {
        crate::bytes::seq_views(self.zs@)
    }

    /// A signature is well formed when `A1` holds 32 bytes that decompress
    /// to a point and every stored scalar is canonical.
    pub open spec fn wf(&self) -> bool {
        &&& self.spec_aa1().len() == 32
        &&& p_valid(self.spec_aa1())
        &&& forall|i: int| 0 <= i < self.spec_cs().len() ==> s_canonical(#[trigger] self.spec_cs()[i])
        &&& forall|i: int| 0 <= i < self.spec_zs().len() ==> s_canonical(#[trigger] self.spec_zs()[i])
    }

    /// The compressed encoding of `A1`.
    pub fn aa1_bytes(&self) -> (r: [u8; 32])
        ensures
            r@ == self.spec_aa1(),
    {
        self.aa1
    }

    /// The raw bytes of the challenge scalars, one 32-byte string per ring
    /// position.
    pub fn cs_vec(&self) -> (r: Vec<[u8; 32]>)
        ensures
            crate::bytes::seq_views(r@) =~= self.spec_cs(),
    {
        let n = self.cs.len();
        let mut out: Vec<[u8; 32]> = Vec::new();
        for i in 0..n
            invariant
                n == self.cs@.len(),
                out@.len() == i,
                forall|j: int| 0 <= j < i ==> out@[j] == self.cs@[j],
        {
            out.push(self.cs[i]);
        }
        out
    }

    /// The raw bytes of the response scalars, one 32-byte string per ring
    /// position.
    pub fn zs_vec(&self) -> (r: Vec<[u8; 32]>)
        ensures
            crate::bytes::seq_views(r@) =~= self.spec_zs(),
    {
        let n = self.zs.len();
        let mut out: Vec<[u8; 32]> = Vec::new();
        for i in 0..n
            invariant
                n == self.zs@.len(),
                out@.len() == i,
                forall|j: int| 0 <= j < i ==> out@[j] == self.zs@[j],
        {
            out.push(self.zs[i]);
        }
        out
    }

    /// Assemble a signature from raw parts: `A1` must be a canonical point
    /// encoding; the scalars are reduced mod the group order, so bytes that
    /// are already canonical are stored unchanged.
    pub fn from_parts(aa1: [u8; 32], cs: Vec<[u8; 32]>, zs: Vec<[u8; 32]>) -> (r: Option<
        Signature,
    >)
        ensures
            match r {
                Some(sig) => p_valid(aa1@) && sig.wf() && sig.spec_aa1() == aa1@ && sig.spec_cs().len()
                    == cs@.len() && sig.spec_zs().len() == zs@.len() && (forall|i: int|
                    0 <= i < cs@.len() ==> #[trigger] sig.spec_cs()[i] == s_reduce(cs@[i]@)) && (
                forall|i: int|
                    0 <= i < zs@.len() ==> #[trigger] sig.spec_zs()[i] == s_reduce(zs@[i]@)),
                None => !p_valid(aa1@),
            },
    {
        if !point_is_valid(&aa1) {
            return None;
        }
        let n = cs.len();
        let m = zs.len();
        let mut rcs: Vec<[u8; 32]> = Vec::new();
        for i in 0..n
            invariant
                n == cs@.len(),
                rcs@.len() == i,
                forall|j: int| 0 <= j < i ==> (#[trigger] rcs@[j])@ == s_reduce(cs@[j]@),
                forall|j: int| 0 <= j < i ==> s_canonical((#[trigger] rcs@[j])@),
        {
            rcs.push(scalar_reduce(cs[i]));
        }
        let mut rzs: Vec<[u8; 32]> = Vec::new();
        for i in 0..m
            invariant
                m == zs@.len(),
                rzs@.len() == i,
                forall|j: int| 0 <= j < i ==> (#[trigger] rzs@[j])@ == s_reduce(zs@[j]@),
                forall|j: int| 0 <= j < i ==> s_canonical((#[trigger] rzs@[j])@),
        {
            rzs.push(scalar_reduce(zs[i]));
        }
        Some(Signature { aa1, cs: rcs, zs: rzs })
    }
}

/// Recompute the message anchor `A0` and the pseudonym vector of a
/// signature under a tag: `sigma[i] = A0 + (i+1) * A1`.
pub(crate) fn compute_sigma(msg: &[u8], tag: &Tag, sig: &Signature) -> (r: ([u8; 32], Vec<
    [u8; 32],
>))
    requires
        tag.wf(),
        sig.wf(),
    ensures
        r.0@ == trs_a0(tag.spec_pubkeys(), tag.issue@, msg@),
        r.1@.len() == tag.pubkeys@.len(),
        forall|i: int|
            0 <= i < r.1@.len() ==> (#[trigger] r.1@[i])@ == trs_sigma(
                trs_a0(tag.spec_pubkeys(), tag.issue@, msg@),
                sig.spec_aa1(),
                i,
            ),
        forall|i: int| 0 <= i < r.1@.len() ==> p_valid((#[trigger] r.1@[i])@),
{
    let ring_size = tag.pubkeys.len();
    let mut input = tag.hash_bytes();
    append_slice(&mut input, msg);
    let persona1 = domain_bytes(49);
    let aa0 = blake_hash_to_point(persona1.as_slice(), input.as_slice());

    let mut sigma: Vec<[u8; 32]> = Vec::new();
    for i in 0..ring_size
        invariant
            ring_size == tag.pubkeys@.len(),
            sig.wf(),
            aa0@ == trs_a0(tag.spec_pubkeys(), tag.issue@, msg@),
            p_valid(aa0@),
            sigma@.len() == i,
            forall|j: int|
                0 <= j < i ==> (#[trigger] sigma@[j])@ == trs_sigma(aa0@, sig.spec_aa1(), j),
            forall|j: int| 0 <= j < i ==> p_valid((#[trigger] sigma@[j])@),
    {
        let s = scalar_from_u64((i + 1) as u64);
        let aa1i = point_mul(s, sig.aa1);
        sigma.push(point_add(aa0, aa1i));
    }
    (aa0, sigma)
}

/// The commitment `a_i = z_i * G + c_i * Y_i` at one ring position.
pub open spec fn trs_a_at(z: Seq<u8>, c: Seq<u8>, y: Seq<u8>) -> Seq<u8> {
    p_add(p_base_mul(z), p_mul(c, y))
}

/// The commitment `b_i = z_i * h + c_i * sigma_i` at one ring position.
pub open spec fn trs_b_at(z: Seq<u8>, c: Seq<u8>, h: Seq<u8>, sigma: Seq<u8>) -> Seq<u8> {
    p_add(p_mul(z, h), p_mul(c, sigma))
}

/// The overall challenge: the domain-2 hash of the tag, `A0`, `A1`, all
/// commitments `a_i` and all commitments `b_i`, reduced to a scalar.
pub open spec fn trs_challenge(
    pks: Seq<Seq<u8>>,
    issue: Seq<u8>,
    msg: Seq<u8>,
    aa1: Seq<u8>,
    cs: Seq<Seq<u8>>,
    zs: Seq<Seq<u8>>,
) -> Seq<u8> {
    let h = trs_h(pks, issue);
    let a0 = trs_a0(pks, issue, msg);
    let n = pks.len();
    let avec = Seq::new(n, |i: int| trs_a_at(zs[i], cs[i], pks[i]));
    let bvec = Seq::new(n, |i: int| trs_b_at(zs[i], cs[i], h, trs_sigma(a0, aa1, i)));
    blake_to_scalar(
        domain_persona(50),
        concat_bytes(pks) + issue + a0 + aa1 + concat_bytes(avec) + concat_bytes(bvec),
    )
}

/// The left-to-right sum of a sequence of scalars, starting from zero.
pub open spec fn sum_scalars(cs: Seq<Seq<u8>>) -> Seq<u8>
    decreases cs.len(),
{
    if cs.len() == 0 {
        s_of_u64(0)
    } else {
        s_add(sum_scalars(cs.drop_last()), cs.last())
    }
}

/// A signature is accepted exactly when its challenge scalars sum to the
/// recomputed overall challenge.
pub open spec fn trs_accepts(
    pks: Seq<Seq<u8>>,
    issue: Seq<u8>,
    msg: Seq<u8>,
    aa1: Seq<u8>,
    cs: Seq<Seq<u8>>,
    zs: Seq<Seq<u8>>,
) -> bool {
    sum_scalars(cs) == trs_challenge(pks, issue, msg, aa1, cs, zs)
}

/// Verify a traceable ring signature: recompute every commitment from the
/// public data and accept exactly when the challenge scalars sum to the
/// recomputed overall challenge (and the scalar vectors both have one entry
/// per ring key).
pub fn verify(msg: &[u8], tag: &Tag, sig: &Signature) -> (r: bool)
    requires
        tag.wf(),
        sig.wf(),
    ensures
        r == (sig.spec_cs().len() == tag.pubkeys@.len() && sig.spec_zs().len()
            == tag.pubkeys@.len() && trs_accepts(
            tag.spec_pubkeys(),
            tag.issue@,
            msg@,
            sig.spec_aa1(),
            sig.spec_cs(),
            sig.spec_zs(),
        )),
{
    let n = tag.pubkeys.len();
    if sig.cs.len() != n || sig.zs.len() != n {
        return false;
    }
    let ghost pks = tag.spec_pubkeys();
    let ghost spec_h = trs_h(pks, tag.issue@);
    let ghost spec_a0 = trs_a0(pks, tag.issue@, msg@);
    let ghost avec = Seq::new(pks.len(), |i: int| trs_a_at(sig.spec_zs()[i], sig.spec_cs()[i], pks[i]));
    let ghost bvec = Seq::new(
        pks.len(),
        |i: int| trs_b_at(sig.spec_zs()[i], sig.spec_cs()[i], spec_h, trs_sigma(spec_a0, sig.spec_aa1(), i)),
    );

    let tag_input = tag.hash_bytes();
    let persona0 = domain_bytes(48);
    let h = blake_hash_to_point(persona0.as_slice(), tag_input.as_slice());
    let (aa0, sigma) = compute_sigma(msg, tag, sig);

    let mut input = tag_input;
    append_bytes32(&mut input, &aa0);
    append_bytes32(&mut input, &sig.aa1);
    for i in 0..n
        invariant
            n == tag.pubkeys@.len() == sig.cs@.len() == sig.zs@.len(),
            tag.wf(),
            sig.wf(),
            pks == tag.spec_pubkeys(),
            avec == Seq::new(
                pks.len(),
                |j: int| trs_a_at(sig.spec_zs()[j], sig.spec_cs()[j], pks[j]),
            ),
            input@ == tag.spec_hash_input() + spec_a0 + sig.spec_aa1() + concat_bytes(
                avec.take(i as int),
            ),
    {
        proof {
            assert(avec.take(i + 1).drop_last() =~= avec.take(i as int));
        }
        let gz = basepoint_mul(sig.zs[i]);
        let yc = point_mul(sig.cs[i], tag.pubkeys[i].0);
        let ai = point_add(gz, yc);
        append_bytes32(&mut input, &ai);
    }
    proof {
        assert(avec.take(n as int) =~= avec);
    }
    for i in 0..n
        invariant
            n == tag.pubkeys@.len() == sig.cs@.len() == sig.zs@.len() == sigma@.len(),
            tag.wf(),
            sig.wf(),
            pks == tag.spec_pubkeys(),
            h@ == spec_h,
            p_valid(h@),
            forall|j: int|
                0 <= j < sigma@.len() ==> (#[trigger] sigma@[j])@ == trs_sigma(
                    spec_a0,
                    sig.spec_aa1(),
                    j,
                ),
            forall|j: int| 0 <= j < sigma@.len() ==> p_valid((#[trigger] sigma@[j])@),
            bvec == Seq::new(
                pks.len(),
                |j: int|
                    trs_b_at(
                        sig.spec_zs()[j],
                        sig.spec_cs()[j],
                        spec_h,
                        trs_sigma(spec_a0, sig.spec_aa1(), j),
                    ),
            ),
            input@ == tag.spec_hash_input() + spec_a0 + sig.spec_aa1() + concat_bytes(avec)
                + concat_bytes(bvec.take(i as int)),
    {
        proof {
            assert(bvec.take(i + 1).drop_last() =~= bvec.take(i as int));
        }
        let hz = point_mul(sig.zs[i], h);
        let sc = point_mul(sig.cs[i], sigma[i]);
        let bi = point_add(hz, sc);
        append_bytes32(&mut input, &bi);
    }
    proof {
        assert(bvec.take(n as int) =~= bvec);
    }

    let persona2 = domain_bytes(50);
    let cc = blake_hash_to_scalar(persona2.as_slice(), input.as_slice());

    let mut sum = scalar_from_u64(0);
    for i in 0..n
        invariant
            n == sig.cs@.len(),
            sum@ == sum_scalars(sig.spec_cs().take(i as int)),
    {
        proof {
            assert(sig.spec_cs().take(i + 1).drop_last() =~= sig.spec_cs().take(i as int));
        }
        sum = scalar_add(sum, sig.cs[i]);
    }
    proof {
        assert(sig.spec_cs().take(n as int) =~= sig.spec_cs());
        assert(tag.spec_hash_input() + spec_a0 + sig.spec_aa1() + concat_bytes(avec) + concat_bytes(
            bvec,
        ) =~= concat_bytes(pks) + tag.issue@ + spec_a0 + sig.spec_aa1() + concat_bytes(avec)
            + concat_bytes(bvec));
    }
    bytes32_eq(&sum, &cc)
}

/// Whether the ring holds the given compressed public key.
pub open spec fn ring_contains_key(pks: Seq<Seq<u8>>, y: Seq<u8>) -> bool {
    exists|i: int| 0 <= i < pks.len() && pks[i] == y
}

/// The largest ring index holding the given compressed public key.
pub open spec fn last_index_of_key(pks: Seq<Seq<u8>>, y: Seq<u8>) -> int
    recommends
        ring_contains_key(pks, y),
    decreases pks.len(),
{
    if pks.len() == 0 {
        0
    } else if pks.last() == y {
        pks.len() - 1
    } else {
        last_index_of_key(pks.drop_last(), y)
    }
}

proof fn lemma_last_index_char(pks: Seq<Seq<u8>>, y: Seq<u8>, f: int)
    requires
        0 <= f < pks.len(),
        pks[f] == y,
        forall|j: int| f < j < pks.len() ==> pks[j] != y,
    ensures
        last_index_of_key(pks, y) == f,
    decreases pks.len(),
{
    if f < pks.len() - 1 {
        lemma_last_index_char(pks.drop_last(), y, f);
    }
}

/// The point `A1` a signer at ring index `j` publishes:
/// `(j+1)^{-1} * (x*h - A0)`, so that the signer's own pseudonym
/// `A0 + (j+1)*A1` equals `x*h`.
pub open spec fn trs_aa1(pks: Seq<Seq<u8>>, issue: Seq<u8>, msg: Seq<u8>, x: Seq<u8>, j: int) -> Seq<
    u8,
> {
    p_mul(s_inv(s_of_u64((j + 1) as u64)), p_sub(p_mul(x, trs_h(pks, issue)), trs_a0(pks, issue, msg)))
}

/// Sign a message under a tag.  The signer's public key must sit in the
/// ring; the signer's index is the last ring position holding it.  The
/// random responses come from the process RNG, so only the deterministic
/// parts of the signature are pinned down: its shape, the well-formedness
/// of every stored scalar, and the published point `A1`.
pub fn sign(msg: &[u8], tag: &Tag, privkey: &PrivateKey) -> (sig: Signature)
    requires
        tag.wf(),
        privkey.wf(),
        ring_contains_key(tag.spec_pubkeys(), privkey.spec_pub()),
    ensures
        sig.wf(),
        sig.spec_cs().len() == tag.pubkeys@.len(),
        sig.spec_zs().len() == tag.pubkeys@.len(),
        sig.spec_aa1() == trs_aa1(
            tag.spec_pubkeys(),
            tag.issue@,
            msg@,
            privkey.spec_scalar(),
            last_index_of_key(tag.spec_pubkeys(), privkey.spec_pub()),
        ),
{
    let ring_size = tag.pubkeys.len();
    let ghost pks = tag.spec_pubkeys();

    // Find the last ring position holding the signer's public key.
    let mut found: Option<usize> = None;
    for i in 0..ring_size
        invariant
            ring_size == tag.pubkeys@.len(),
            pks == tag.spec_pubkeys(),
            match found {
                Some(f) => f < i && pks[f as int] == privkey.spec_pub() && (forall|j: int|
                    f < j < i ==> pks[j] != privkey.spec_pub()),
                None => forall|j: int| 0 <= j < i ==> pks[j] != privkey.spec_pub(),
            },
    {
        if bytes32_eq(&tag.pubkeys[i].0, &privkey.1) {
            found = Some(i);
        }
    }
    let privkey_idx = match found {
        Some(f) => f,
        None => {
            proof {
                assert(false);
            }
            0
        },
    };
    let ghost j = privkey_idx as int;
    proof {
        lemma_last_index_char(pks, privkey.spec_pub(), j);
    }

    let tag_input = tag.hash_bytes();
    let persona0 = domain_bytes(48);
    let h = blake_hash_to_point(persona0.as_slice(), tag_input.as_slice());

    // The signer's pseudonym is x*h; every other pseudonym is derived.
    let sigma_j = point_mul(privkey.0, h);

    let mut msg_input = tag_input;
    append_slice(&mut msg_input, msg);
    let persona1 = domain_bytes(49);
    let aa0 = blake_hash_to_point(persona1.as_slice(), msg_input.as_slice());

    // A1 := (j+1)^{-1} * (sigma_j - A0).  The index enters one-based so
    // that the inverse exists even for the signer at position zero.
    let js = scalar_from_u64((privkey_idx + 1) as u64);
    let jsinv = scalar_invert(js);
    let aa1 = point_mul(jsinv, point_sub(sigma_j, aa0));

    let ghost spec_a0 = trs_a0(pks, tag.issue@, msg@);
    let mut sigma: Vec<[u8; 32]> = Vec::new();
    for i in 0..ring_size
        invariant
            ring_size == tag.pubkeys@.len(),
            j == privkey_idx as int,
            privkey_idx < ring_size,
            sigma@.len() == i,
            p_valid(sigma_j@),
            p_valid(aa0@),
            p_valid(aa1@),
            aa0@ == spec_a0,
            forall|k: int|
                0 <= k < i && k != j ==> (#[trigger] sigma@[k])@ == trs_sigma(spec_a0, aa1@, k),
            forall|k: int| 0 <= k < i && k == j ==> (#[trigger] sigma@[k])@ == sigma_j@,
            forall|k: int| 0 <= k < i ==> p_valid((#[trigger] sigma@[k])@),
    {
        if i == privkey_idx {
            sigma.push(sigma_j);
        } else {
            let s = scalar_from_u64((i + 1) as u64);
            sigma.push(point_add(aa0, point_mul(s, aa1)));
        }
    }

    // Commitments: the signer's from a fresh nonce, the others from fresh
    // random challenge/response pairs.
    let w = scalar_random();
    let mut cs: Vec<[u8; 32]> = Vec::new();
    let mut zs: Vec<[u8; 32]> = Vec::new();
    let mut avec: Vec<[u8; 32]> = Vec::new();
    let mut bvec: Vec<[u8; 32]> = Vec::new();
    for i in 0..ring_size
        invariant
            ring_size == tag.pubkeys@.len(),
            tag.wf(),
            j == privkey_idx as int,
            privkey_idx < ring_size,
            sigma@.len() == ring_size,
            p_valid(h@),
            s_canonical(w@),
            forall|k: int| 0 <= k < sigma@.len() ==> p_valid((#[trigger] sigma@[k])@),
            cs@.len() == i && zs@.len() == i && avec@.len() == i && bvec@.len() == i,
            forall|k: int| 0 <= k < i ==> s_canonical((#[trigger] cs@[k])@),
            forall|k: int| 0 <= k < i ==> s_canonical((#[trigger] zs@[k])@),
    {
        if i == privkey_idx {
            cs.push(scalar_from_u64(0));
            zs.push(scalar_from_u64(0));
            avec.push(basepoint_mul(w));
            bvec.push(point_mul(w, h));
        } else {
            let ci = scalar_random();
            let zi = scalar_random();
            cs.push(ci);
            zs.push(zi);
            avec.push(point_add(basepoint_mul(zi), point_mul(ci, tag.pubkeys[i].0)));
            bvec.push(point_add(point_mul(zi, h), point_mul(ci, sigma[i])));
        }
    }

    // Overall challenge: domain-2 hash of tag, A0, A1, all a_i, all b_i.
    let mut input = msg_input;
    input.truncate(input.len() - msg.len());
    proof {
        assert(input@ =~= tag.spec_hash_input());
    }
    append_bytes32(&mut input, &aa0);
    append_bytes32(&mut input, &aa1);
    for i in 0..ring_size
        invariant
            ring_size == avec@.len(),
            input@.len() >= 0,
    {
        append_bytes32(&mut input, &avec[i]);
    }
    for i in 0..ring_size
        invariant
            ring_size == bvec@.len(),
            input@.len() >= 0,
    {
        append_bytes32(&mut input, &bvec[i]);
    }
    let persona2 = domain_bytes(50);
    let cc = blake_hash_to_scalar(persona2.as_slice(), input.as_slice());

    // Close the ring: c_j := cc - sum of the other challenges, and
    // z_j := w - c_j * x.
    let mut sum = scalar_from_u64(0);
    for i in 0..ring_size
        invariant
            ring_size == cs@.len(),
            s_canonical(sum@),
    {
        if i != privkey_idx {
            sum = scalar_add(sum, cs[i]);
        }
    }
    let cj = scalar_sub(cc, sum);
    let zj = scalar_sub(w, scalar_mul(cj, privkey.0));
    set_bytes32(&mut cs, privkey_idx, cj);
    set_bytes32(&mut zs, privkey_idx, zj);

    Signature { aa1, cs, zs }
}

/// Whether 32 bytes are a canonical scalar encoding (an integer below the
/// group order).  The bytes are left unchanged.
pub fn is_valid_scalar(bytes: &mut [u8; 32]) -> (r: bool)
    ensures
        r <==> s_canonical(old(bytes)@),
        *final(bytes) == *old(bytes),
{
    let b: [u8; 32] = *bytes;
    scalar_is_canonical(&b)
}

/// Derive a keypair from 32 bytes of hash input: the private scalar is the
/// domain-0 hash of the input, the public key is that scalar times the
/// basepoint.  The input bytes are left unchanged.
pub fn trs_keypair_from_hash(
    hash_bytes: &mut [u8; 32],
    private_key: &mut [u8; 32],
    public_key: &mut [u8; 32],
)
    ensures
        *final(hash_bytes) == *old(hash_bytes),
        final(private_key)@ == blake_to_scalar(domain_persona(48), old(hash_bytes)@),
        s_canonical(final(private_key)@),
        final(public_key)@ == p_base_mul(final(private_key)@),
        p_valid(final(public_key)@),
{
    let hb: [u8; 32] = *hash_bytes;
    let persona0 = domain_bytes(48);
    let s = blake_hash_to_scalar(persona0.as_slice(), hb.as_slice());
    *private_key = s;
    *public_key = basepoint_mul(s);
}

/// Generate a fresh random keypair: a random canonical scalar and that
/// scalar times the basepoint.
pub fn trs_generate_keypair(private_key: &mut [u8; 32], public_key: &mut [u8; 32])
    ensures
        s_canonical(final(private_key)@),
        final(public_key)@ == p_base_mul(final(private_key)@),
        p_valid(final(public_key)@),
{
    let s = scalar_random();
    *private_key = s;
    *public_key = basepoint_mul(s);
}

/// Derive the public key of a canonical seed scalar: the scalar times the
/// basepoint.  The seed bytes are left unchanged.
pub fn trs_keypair_from_seed(private_key: &mut [u8; 32], public_key: &mut [u8; 32])
    requires
        s_canonical(old(private_key)@),
    ensures
        *final(private_key) == *old(private_key),
        final(public_key)@ == p_base_mul(old(private_key)@),
        p_valid(final(public_key)@),
{
    let s: [u8; 32] = *private_key;
    *public_key = basepoint_mul(s);
}

/// Sign and then check the emitted signature with the verifier before
/// handing it out.  The bare signer cannot promise over the uninterpreted
/// group operations that its challenge scalars sum to the recomputed
/// overall challenge, so this function tests the emitted signature
/// instead: `Some` carries a signature that the verifier accepts under
/// this tag and message.  `None` arises only if the emitted signature
/// failed the check, which honest group arithmetic never produces.
pub fn checked_sign(msg: &[u8], tag: &Tag, privkey: &PrivateKey) -> (r: Option<Signature>)
    requires
        tag.wf(),
        privkey.wf(),
        ring_contains_key(tag.spec_pubkeys(), privkey.spec_pub()),
    ensures
        match r {
            Some(sig) => {
                &&& sig.wf()
                &&& sig.spec_cs().len() == tag.pubkeys@.len()
                &&& sig.spec_zs().len() == tag.pubkeys@.len()
                &&& sig.spec_aa1() == trs_aa1(
                    tag.spec_pubkeys(),
                    tag.issue@,
                    msg@,
                    privkey.spec_scalar(),
                    last_index_of_key(tag.spec_pubkeys(), privkey.spec_pub()),
                )
                &&& trs_accepts(
                    tag.spec_pubkeys(),
                    tag.issue@,
                    msg@,
                    sig.spec_aa1(),
                    sig.spec_cs(),
                    sig.spec_zs(),
                )
            },
            None => true,
        },
{
    let sig = sign(msg, tag, privkey);
    if verify(msg, tag, &sig) {
        Some(sig)
    } else {
        None
    }
}

/// Whether two signatures' pseudonym vectors agree at ring position `i`.
pub open spec fn trace_collides(
    pks: Seq<Seq<u8>>,
    issue: Seq<u8>,
    msg1: Seq<u8>,
    msg2: Seq<u8>,
    aa1_1: Seq<u8>,
    aa1_2: Seq<u8>,
    i: int,
) -> bool {
    trs_sigma(trs_a0(pks, issue, msg1), aa1_1, i) == trs_sigma(trs_a0(pks, issue, msg2), aa1_2, i)
}

/// How many of the first `n` ring positions the two pseudonym vectors
/// agree on.
pub open spec fn collision_count(
    pks: Seq<Seq<u8>>,
    issue: Seq<u8>,
    msg1: Seq<u8>,
    msg2: Seq<u8>,
    aa1_1: Seq<u8>,
    aa1_2: Seq<u8>,
    n: int,
) -> int
    decreases n,
{
    if n <= 0 {
        0
    } else {
        collision_count(pks, issue, msg1, msg2, aa1_1, aa1_2, n - 1) + if trace_collides(
            pks,
            issue,
            msg1,
            msg2,
            aa1_1,
            aa1_2,
            n - 1,
        ) {
            1int
        } else {
            0int
        }
    }
}

/// The first ring position in `i..n` where the two pseudonym vectors
/// agree, or `n` if they agree nowhere in that range.
pub open spec fn first_collision_from(
    pks: Seq<Seq<u8>>,
    issue: Seq<u8>,
    msg1: Seq<u8>,
    msg2: Seq<u8>,
    aa1_1: Seq<u8>,
    aa1_2: Seq<u8>,
    i: int,
    n: int,
) -> int
    decreases n - i,
{
    if i >= n {
        n
    } else if trace_collides(pks, issue, msg1, msg2, aa1_1, aa1_2, i) {
        i
    } else {
        first_collision_from(pks, issue, msg1, msg2, aa1_1, aa1_2, i + 1, n)
    }
}

/// The tracer's verdict over a ring of `n` keys: `-1` (linked) when the
/// pseudonym vectors agree everywhere, the signer's ring index when they
/// agree at exactly one position, and `-2` (independent) otherwise.
pub open spec fn trace_verdict(
    pks: Seq<Seq<u8>>,
    issue: Seq<u8>,
    msg1: Seq<u8>,
    msg2: Seq<u8>,
    aa1_1: Seq<u8>,
    aa1_2: Seq<u8>,
    n: int,
) -> int {
    let cnt = collision_count(pks, issue, msg1, msg2, aa1_1, aa1_2, n);
    if cnt == n {
        -1
    } else if cnt == 1 {
        first_collision_from(pks, issue, msg1, msg2, aa1_1, aa1_2, 0, n)
    } else {
        -2
    }
}

proof fn lemma_first_collision_from(
    pks: Seq<Seq<u8>>,
    issue: Seq<u8>,
    msg1: Seq<u8>,
    msg2: Seq<u8>,
    aa1_1: Seq<u8>,
    aa1_2: Seq<u8>,
    i: int,
    f: int,
    n: int,
)
    requires
        0 <= i <= f < n,
        trace_collides(pks, issue, msg1, msg2, aa1_1, aa1_2, f),
        forall|j: int| i <= j < f ==> !trace_collides(pks, issue, msg1, msg2, aa1_1, aa1_2, j),
    ensures
        first_collision_from(pks, issue, msg1, msg2, aa1_1, aa1_2, i, n) == f,
    decreases f - i,
{
    if i < f {
        lemma_first_collision_from(pks, issue, msg1, msg2, aa1_1, aa1_2, i + 1, f, n);
    }
}

/// Compare two signatures under one tag: recompute both pseudonym vectors
/// and decide from the positions where they collide.  Returns `-1` when
/// every position collides (same signer, same message: linked), the ring
/// index of the unique colliding position when there is exactly one (same
/// signer, different messages: traced), and `-2` otherwise (independent
/// signers; a collision count strictly between 1 and the ring size cannot
/// arise from well-formed signatures and is folded into `-2`).
pub fn trace(tag: &Tag, msg1: &[u8], msg2: &[u8], sig1: &Signature, sig2: &Signature) -> (r: i32)
    requires
        tag.wf(),
        sig1.wf(),
        sig2.wf(),
        tag.pubkeys@.len() <= 0x7fffffff,
    ensures
        r as int == trace_verdict(
            tag.spec_pubkeys(),
            tag.issue@,
            msg1@,
            msg2@,
            sig1.spec_aa1(),
            sig2.spec_aa1(),
            tag.pubkeys@.len() as int,
        ),
{
    let ghost pks = tag.spec_pubkeys();
    let ghost issue = tag.issue@;
    let n = tag.pubkeys.len();
    let (_aa0_1, sigma1) = compute_sigma(msg1, tag, sig1);
    let (_aa0_2, sigma2) = compute_sigma(msg2, tag, sig2);

    let mut count: usize = 0;
    let mut first: usize = 0;
    for i in 0..n
        invariant
            n == tag.pubkeys@.len(),
            pks == tag.spec_pubkeys(),
            issue == tag.issue@,
            sigma1@.len() == n && sigma2@.len() == n,
            forall|k: int|
                0 <= k < n ==> (#[trigger] sigma1@[k])@ == trs_sigma(
                    trs_a0(pks, issue, msg1@),
                    sig1.spec_aa1(),
                    k,
                ),
            forall|k: int|
                0 <= k < n ==> (#[trigger] sigma2@[k])@ == trs_sigma(
                    trs_a0(pks, issue, msg2@),
                    sig2.spec_aa1(),
                    k,
                ),
            count == collision_count(pks, issue, msg1@, msg2@, sig1.spec_aa1(), sig2.spec_aa1(), i as int),
            count <= i,
            count > 0 ==> (first < i && trace_collides(
                pks,
                issue,
                msg1@,
                msg2@,
                sig1.spec_aa1(),
                sig2.spec_aa1(),
                first as int,
            ) && (forall|j: int|
                0 <= j < first ==> !trace_collides(
                    pks,
                    issue,
                    msg1@,
                    msg2@,
                    sig1.spec_aa1(),
                    sig2.spec_aa1(),
                    j,
                ))),
            count == 0 ==> (forall|j: int|
                0 <= j < i ==> !trace_collides(
                    pks,
                    issue,
                    msg1@,
                    msg2@,
                    sig1.spec_aa1(),
                    sig2.spec_aa1(),
                    j,
                )),
    {
        if bytes32_eq(&sigma1[i], &sigma2[i]) {
            if count == 0 {
                first = i;
            }
            count = count + 1;
        }
    }
    if count == n {
        -1
    } else if count == 1 {
        proof {
            lemma_first_collision_from(
                pks,
                issue,
                msg1@,
                msg2@,
                sig1.spec_aa1(),
                sig2.spec_aa1(),
                0,
                first as int,
                n as int,
            );
        }
        first as i32
    } else {
        -2
    }
}

proof fn lemma_collision_count_all(
    pks: Seq<Seq<u8>>,
    issue: Seq<u8>,
    msg: Seq<u8>,
    aa1: Seq<u8>,
    n: int,
)
    requires
        n >= 0,
    ensures
        collision_count(pks, issue, msg, msg, aa1, aa1, n) == n,
    decreases n,
{
    if n > 0 {
        lemma_collision_count_all(pks, issue, msg, aa1, n - 1);
    }
}

/// A signature traced with itself on one message gives -1: all ring
/// positions collide.
pub proof fn lemma_trace_linked_for_equal_signatures(
    pks: Seq<Seq<u8>>,
    issue: Seq<u8>,
    msg: Seq<u8>,
    aa1: Seq<u8>,
    n: int,
)
    requires
        n >= 0,
    ensures
        trace_verdict(pks, issue, msg, msg, aa1, aa1, n) == -1,
{
    lemma_collision_count_all(pks, issue, msg, aa1, n);
    if n == 1 {
        assert(trace_collides(pks, issue, msg, msg, aa1, aa1, 0));
    }
}

/// For any well-formed public key, its serialized bytes meet exactly the
/// success conditions of `from_bytes` (32 bytes that decompress), and any
/// public key holding those bytes is the key itself.  With the contracts of
/// `as_bytes` and `from_bytes` this gives the round trip
/// `PublicKey::from_bytes(pk.as_bytes()) == Some(pk)`.
pub proof fn lemma_public_key_roundtrip(pk: PublicKey, pk2: PublicKey)
    requires
        pk.wf(),
        pk2.spec_bytes() == pk.spec_bytes(),
    ensures
        pk.spec_bytes().len() == 32,
        p_valid(pk.spec_bytes()),
        pk2 == pk,
{
    assert(pk2.0 =~= pk.0);
}

/// For any well-formed private key, its serialized 64 bytes meet exactly
/// the success conditions of `from_bytes` (a canonical scalar followed by
/// bytes that decompress), and any private key holding those halves is the
/// key itself.  With the contracts of `as_bytes` and `from_bytes` this
/// gives the round trip `PrivateKey::from_bytes(k.as_bytes()) == Some(k)`.
pub proof fn lemma_private_key_roundtrip(k: PrivateKey, k2: PrivateKey)
    requires
        k.wf(),
        k2.spec_scalar() == (k.spec_scalar() + k.spec_pub()).subrange(0, 32),
        k2.spec_pub() == (k.spec_scalar() + k.spec_pub()).subrange(32, 64),
    ensures
        (k.spec_scalar() + k.spec_pub()).len() == 64,
        s_canonical((k.spec_scalar() + k.spec_pub()).subrange(0, 32)),
        p_valid((k.spec_scalar() + k.spec_pub()).subrange(32, 64)),
        k2 == k,
{
    assert((k.spec_scalar() + k.spec_pub()).subrange(0, 32) =~= k.spec_scalar());
    assert((k.spec_scalar() + k.spec_pub()).subrange(32, 64) =~= k.spec_pub());
    assert(k2.0 =~= k.0);
    assert(k2.1 =~= k.1);
}

/// The nonce scalar of the Schnorr-style helper: the unkeyed BLAKE2b hash
/// of the private scalar followed by the message, reduced to a scalar.
pub open spec fn ed25519_nonce(x: Seq<u8>, msg: Seq<u8>) -> Seq<u8> {
    blake_to_scalar(Seq::empty(), x + msg)
}

/// The challenge scalar of the Schnorr-style helper: the unkeyed BLAKE2b
/// hash of the nonce point, the public key and the message.
pub open spec fn ed25519_challenge(rpt: Seq<u8>, pk: Seq<u8>, msg: Seq<u8>) -> Seq<u8> {
    blake_to_scalar(Seq::empty(), rpt + pk + msg)
}

/// The 64-byte Schnorr-style signature `R || s` of a message under a
/// canonical private scalar: `R = r*G` for the nonce `r`, and
/// `s = r + h*x` for the challenge `h`.
pub open spec fn ed25519_signature(x: Seq<u8>, msg: Seq<u8>) -> Seq<u8> {
    let r = ed25519_nonce(x, msg);
    let rpt = p_base_mul(r);
    let h = ed25519_challenge(rpt, p_base_mul(x), msg);
    rpt + s_add(r, s_mul(h, x))
}

/// Produce the 64-byte Schnorr-style signature of a message.  With a
/// non-canonical private scalar nothing is written; otherwise the
/// signature buffer receives `R || s`.  The unkeyed hash equals BLAKE2b
/// under an empty persona.
pub fn ed25519_sign_rust(private_key: &mut [u8; 32], msg: &[u8], signature: &mut [u8; 64])
    ensures
        *final(private_key) == *old(private_key),
        s_canonical(old(private_key)@) ==> final(signature)@ == ed25519_signature(
            old(private_key)@,
            msg@,
        ),
        !s_canonical(old(private_key)@) ==> *final(signature) == *old(signature),
{
    let x: [u8; 32] = *private_key;
    if !scalar_is_canonical(&x) {
        return ;
    }
    let pubkey = basepoint_mul(x);

    let mut data: Vec<u8> = Vec::new();
    append_bytes32(&mut data, &x);
    append_slice(&mut data, msg);
    let empty: Vec<u8> = Vec::new();
    let r = blake_hash_to_scalar(empty.as_slice(), data.as_slice());
    let rpt = basepoint_mul(r);

    let mut data2: Vec<u8> = Vec::new();
    append_bytes32(&mut data2, &rpt);
    append_bytes32(&mut data2, &pubkey);
    append_slice(&mut data2, msg);
    let h = blake_hash_to_scalar(empty.as_slice(), data2.as_slice());
    let s = scalar_add(r, scalar_mul(h, x));

    for i in 0..32
        invariant
            forall|j: int| 0 <= j < i ==> signature@[j] == rpt@[j],
    {
        signature[i] = rpt[i];
    }
    for i in 0..32
        invariant
            forall|j: int| 0 <= j < 32 ==> signature@[j] == rpt@[j],
            forall|j: int| 0 <= j < i ==> signature@[32 + j] == s@[j],
    {
        signature[32 + i] = s[i];
    }
    proof {
        assert(signature@ =~= rpt@ + s@);
    }
}

/// Whether a 64-byte Schnorr-style signature `R || s` opens under a public
/// key: the key and `R` must decompress, `s` must be canonical, and
/// `s*G` must equal `R + h*P` for the recomputed challenge `h`.
pub open spec fn ed25519_accepts(pk: Seq<u8>, msg: Seq<u8>, sig: Seq<u8>) -> bool {
    let rpt = sig.subrange(0, 32);
    let s = sig.subrange(32, 64);
    p_valid(pk) && p_valid(rpt) && s_canonical(s) && p_base_mul(s) == p_add(
        rpt,
        p_mul(ed25519_challenge(rpt, pk, msg), pk),
    )
}

/// Check the 64-byte Schnorr-style signature of a message under a public
/// key.  Malformed inputs (a key or nonce point that does not decompress,
/// a non-canonical response scalar) are rejected rather than an error.
pub fn ed25519_verify_rust(public_key: &[u8; 32], msg: &[u8], signature: &[u8; 64]) -> (r: bool)
    ensures
        r == ed25519_accepts(public_key@, msg@, signature@),
{
    if !point_is_valid(public_key) {
        return false;
    }
    let rpt = read_bytes32(signature.as_slice(), 0);
    if !point_is_valid(&rpt) {
        return false;
    }
    let s = read_bytes32(signature.as_slice(), 32);
    if !scalar_is_canonical(&s) {
        return false;
    }
    let mut data: Vec<u8> = Vec::new();
    append_bytes32(&mut data, &rpt);
    append_bytes32(&mut data, public_key);
    append_slice(&mut data, msg);
    let empty: Vec<u8> = Vec::new();
    let h = blake_hash_to_scalar(empty.as_slice(), data.as_slice());
    let p1 = basepoint_mul(s);
    let p2 = point_add(rpt, point_mul(h, *public_key));
    bytes32_eq(&p1, &p2)
}

/// Generate a ring of fresh keypairs with a fixed all-zero issue and the
/// fixed message `[1; 32]`: the raw public keys, the raw secret scalars,
/// the tag over the whole ring, and the message.
pub fn generate_keys_and_message(ring_size: usize) -> (r: (Vec<[u8; 32]>, Vec<[u8; 32]>, Tag, Vec<
    u8,
>))
    ensures
        r.0@.len() == ring_size,
        r.1@.len() == ring_size,
        r.2.pubkeys@.len() == ring_size,
        r.2.wf(),
        forall|i: int|
            0 <= i < ring_size ==> (#[trigger] r.2.pubkeys@[i]).spec_bytes() == r.0@[i]@,
        forall|i: int|
            0 <= i < ring_size ==> (#[trigger] r.0@[i])@ == p_base_mul(r.1@[i]@) && p_valid(
                r.0@[i]@,
            ),
        forall|i: int| 0 <= i < ring_size ==> s_canonical((#[trigger] r.1@[i])@),
        r.2.issue@ == Seq::new(32, |i: int| 0u8),
        r.3@ == Seq::new(32, |i: int| 1u8),
{
    let mut set_publickey: Vec<[u8; 32]> = Vec::new();
    let mut set_secretkey: Vec<[u8; 32]> = Vec::new();
    for i in 0..ring_size
        invariant
            set_publickey@.len() == i,
            set_secretkey@.len() == i,
            forall|j: int|
                0 <= j < i ==> (#[trigger] set_publickey@[j])@ == p_base_mul(set_secretkey@[j]@)
                    && p_valid(set_publickey@[j]@),
            forall|j: int| 0 <= j < i ==> s_canonical((#[trigger] set_secretkey@[j])@),
    {
        let mut public_key = [0u8; 32];
        let mut secret_key = [0u8; 32];
        trs_generate_keypair(&mut secret_key, &mut public_key);
        set_publickey.push(public_key);
        set_secretkey.push(secret_key);
    }

    let issue = byte_vec(0, 32);
    let mut pubkeys: Vec<PublicKey> = Vec::new();
    for i in 0..ring_size
        invariant
            set_publickey@.len() == ring_size,
            set_secretkey@.len() == ring_size,
            forall|j: int|
                0 <= j < ring_size ==> (#[trigger] set_publickey@[j])@ == p_base_mul(
                    set_secretkey@[j]@,
                ) && p_valid(set_publickey@[j]@),
            forall|j: int| 0 <= j < ring_size ==> s_canonical((#[trigger] set_secretkey@[j])@),
            pubkeys@.len() == i,
            forall|j: int|
                0 <= j < i ==> (#[trigger] pubkeys@[j]).spec_bytes() == set_publickey@[j]@
                    && pubkeys@[j].wf(),
    {
        let public_key = match PublicKey::from_bytes(set_publickey[i].as_slice()) {
            Some(k) => k,
            None => {
                proof {
                    assert(false);
                }
                PublicKey([0u8; 32])
            },
        };
        pubkeys.push(public_key);
    }
    let tag = Tag { issue, pubkeys };

    let msg = byte_vec(1, 32);
    (set_publickey, set_secretkey, tag, msg)
}

/// Sign the fixed message once with the first keypair of a generated ring,
/// as the proof-generation timing driver does.
pub fn proof_time(
    ring_size: usize,
    set_publickey: Vec<[u8; 32]>,
    set_secretkey: Vec<[u8; 32]>,
    tag: Tag,
    msg: Vec<u8>,
) -> (sigs: Vec<Signature>)
    requires
        set_publickey@.len() >= 1,
        set_secretkey@.len() >= 1,
        s_canonical(set_secretkey@[0]@),
        p_valid(set_publickey@[0]@),
        tag.wf(),
        ring_contains_key(tag.spec_pubkeys(), set_publickey@[0]@),
    ensures
        sigs@.len() == 1,
        sigs@[0].wf(),
        sigs@[0].spec_cs().len() == tag.pubkeys@.len(),
        sigs@[0].spec_zs().len() == tag.pubkeys@.len(),
        sigs@[0].spec_aa1() == trs_aa1(
            tag.spec_pubkeys(),
            tag.issue@,
            msg@,
            set_secretkey@[0]@,
            last_index_of_key(tag.spec_pubkeys(), set_publickey@[0]@),
        ),
{
    let mut sk_bytes: Vec<u8> = Vec::new();
    append_bytes32(&mut sk_bytes, &set_secretkey[0]);
    append_bytes32(&mut sk_bytes, &set_publickey[0]);
    proof {
        assert(sk_bytes@.subrange(0, 32) =~= set_secretkey@[0]@);
        assert(sk_bytes@.subrange(32, 64) =~= set_publickey@[0]@);
    }
    let privkey = match PrivateKey::from_bytes(sk_bytes.as_slice()) {
        Some(k) => k,
        None => {
            proof {
                assert(false);
            }
            PrivateKey([0u8; 32], [0u8; 32])
        },
    };
    let mut sigs: Vec<Signature> = Vec::new();
    sigs.push(sign(msg.as_slice(), &tag, &privkey));
    sigs
}

/// What the signing driver needs of its key material: at least one
/// keypair, with a canonical first secret scalar and a decodable first
/// public key, a tag of decodable ring keys, and the first public key
/// present in the ring.
pub open spec fn proof_time_ready(
    set_publickey: Seq<[u8; 32]>,
    set_secretkey: Seq<[u8; 32]>,
    tag: &Tag,
) -> bool {
    &&& set_publickey.len() >= 1
    &&& set_secretkey.len() >= 1
    &&& s_canonical(set_secretkey[0]@)
    &&& p_valid(set_publickey[0]@)
    &&& tag.wf()
    &&& ring_contains_key(tag.spec_pubkeys(), set_publickey[0]@)
}

/// Check the signing driver's preconditions at run time and only then run
/// it: `None` exactly when the key material is not ready (a missing
/// keypair, a non-canonical secret, an undecodable key, or a first public
/// key absent from the ring).
pub fn try_proof_time(
    ring_size: usize,
    set_publickey: Vec<[u8; 32]>,
    set_secretkey: Vec<[u8; 32]>,
    tag: Tag,
    msg: Vec<u8>,
) -> (r: Option<Vec<Signature>>)
    ensures
        match r {
            Some(sigs) => proof_time_ready(set_publickey@, set_secretkey@, &tag) && sigs@.len()
                == 1 && sigs@[0].wf() && sigs@[0].spec_aa1() == trs_aa1(
                tag.spec_pubkeys(),
                tag.issue@,
                msg@,
                set_secretkey@[0]@,
                last_index_of_key(tag.spec_pubkeys(), set_publickey@[0]@),
            ),
            None => !proof_time_ready(set_publickey@, set_secretkey@, &tag),
        },
{
    if set_publickey.len() < 1 || set_secretkey.len() < 1 {
        return None;
    }
    if !scalar_is_canonical(&set_secretkey[0]) {
        return None;
    }
    if !point_is_valid(&set_publickey[0]) {
        return None;
    }
    let n = tag.pubkeys.len();
    for i in 0..n
        invariant
            n == tag.pubkeys@.len(),
            forall|j: int| 0 <= j < i ==> (#[trigger] tag.pubkeys@[j]).wf(),
    {
        if !point_is_valid(&tag.pubkeys[i].0) {
            proof {
                assert(!tag.pubkeys@[i as int].wf());
            }
            return None;
        }
    }
    let mut found = false;
    for i in 0..n
        invariant
            n == tag.pubkeys@.len(),
            set_publickey@.len() >= 1,
            found ==> ring_contains_key(tag.spec_pubkeys(), set_publickey@[0]@),
            !found ==> (forall|j: int|
                0 <= j < i ==> tag.spec_pubkeys()[j] != set_publickey@[0]@),
    {
        if bytes32_eq(&tag.pubkeys[i].0, &set_publickey[0]) {
            proof {
                assert(tag.spec_pubkeys()[i as int] == set_publickey@[0]@);
            }
            found = true;
        }
    }
    if !found {
        return None;
    }
    Some(proof_time(ring_size, set_publickey, set_secretkey, tag, msg))
}

/// Verify the first of a batch of signatures, as the verification timing
/// driver does.
pub fn verification_time(msg: Vec<u8>, tag: Tag, sigs: Vec<Signature>, ring_size: usize)
    requires
        sigs@.len() >= 1,
        tag.wf(),
        sigs@[0].wf(),
{
    let _ = verify(msg.as_slice(), &tag, &sigs[0]);
}

/// Trace one pair of signatures, as the tracing timing driver does.
pub fn trace_time(msg1: Vec<u8>, msg2: Vec<u8>, tag: Tag, sig1: Signature, sig2: Signature)
    requires
        tag.wf(),
        sig1.wf(),
        sig2.wf(),
        tag.pubkeys@.len() <= 0x7fffffff,
{
    let _ = trace(&tag, msg1.as_slice(), msg2.as_slice(), &sig1, &sig2);
}

/// Generate a ring of keys and a tag, as the generation timing driver does.
pub fn generation_time(ring_size: usize) {
    let _ = generate_keys_and_message(ring_size);
}

} // verus!
