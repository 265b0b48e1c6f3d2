//! Plain byte-string helpers shared by both signature schemes.
use vstd::prelude::*;

verus! {

/// Little-endian integer value of a byte string.
pub open spec fn le_bytes_to_nat(b: Seq<u8>) -> nat
    decreases b.len(),
{
    if b.len() == 0 {
        0
    } else {
        (b[0] + 256 * le_bytes_to_nat(b.drop_first())) as nat
    }
}

/// The byte strings held by a sequence of 32-byte arrays, element by element.
pub open spec fn seq_views(s: Seq<[u8; 32]>) -> Seq<Seq<u8>> {
    Seq::new(s.len(), |i: int| s[i]@)
}

/// Concatenation of a sequence of byte strings, in order.
pub open spec fn concat_bytes(s: Seq<Seq<u8>>) -> Seq<u8>
    decreases s.len(),
{
    if s.len() == 0 {
        Seq::empty()
    } else {
        concat_bytes(s.drop_last()) + s.last()
    }
}

/// Byte-for-byte equality of two 32-byte strings.
pub fn bytes32_eq(a: &[u8; 32], b: &[u8; 32]) -> (r: bool)
    ensures
        r <==> a@ == b@,
{
    for i in 0..32
        invariant
            forall|j: int| 0 <= j < i ==> a@[j] == b@[j],
    {
        if a[i] != b[i] {
            return false;
        }
    }
    assert(a@ =~= b@);
    true
}

/// Append a 32-byte string to a byte vector.
pub fn append_bytes32(out: &mut Vec<u8>, b: &[u8; 32])
    ensures
        final(out)@ == old(out)@ + b@,
{
    out.extend_from_slice(b.as_slice());
}

/// Append a byte slice to a byte vector.
pub fn append_slice(out: &mut Vec<u8>, b: &[u8])
    ensures
        final(out)@ == old(out)@ + b@,
{
    out.extend_from_slice(b);
}

/// Copy 32 bytes out of a slice, starting at `start`.
pub fn read_bytes32(bytes: &[u8], start: usize) -> (r: [u8; 32])
    requires
        start + 32 <= bytes@.len(),
    ensures
        r@ == bytes@.subrange(start as int, start as int + 32),
{
    let len = bytes.len();
    let mut arr = [0u8; 32];
    for i in 0..32
        invariant
            start + 32 <= len == bytes@.len(),
            forall|j: int| 0 <= j < i ==> arr@[j] == bytes@[start + j],
    {
        arr[i] = bytes[start + i];
    }
    assert(arr@ =~= bytes@.subrange(start as int, start as int + 32));
    arr
}

/// A vector holding `n` copies of the byte `val`.
pub fn byte_vec(val: u8, n: usize) -> (r: Vec<u8>)
    ensures
        r@ == Seq::new(n as nat, |i: int| val),
{
    let mut out: Vec<u8> = Vec::new();
    for i in 0..n
        invariant
            out@ =~= Seq::new(i as nat, |j: int| val),
    {
        out.push(val);
    }
    assert(out@ =~= Seq::new(n as nat, |i: int| val));
    out
}

/// Replace one element of a vector of 32-byte strings.
pub(crate) fn set_bytes32(v: &mut Vec<[u8; 32]>, i: usize, x: [u8; 32])
    requires
        i < old(v)@.len(),
    ensures
        final(v)@ == old(v)@.update(i as int, x),
{
    v[i] = x;
}

} // verus!
