//! Little-endian field access on byte buffers, through the `byteorder` crate.

use byteorder::{ByteOrder, LittleEndian};
use vstd::prelude::*;
use vstd::bytes::*;
use vstd::slice::slice_subrange;

verus! {

/// `LittleEndian::read_u16` from `byteorder`, applied to the two bytes at `pos`.
/// Claimed: the result is those two bytes read least significant first.
#[verifier::external_body]
pub(crate) fn read_u16_at(buf: &[u8], pos: usize) -> (r: u16)
    requires
        pos + 2 <= buf@.len(),
    ensures
        r == spec_u16_from_le_bytes(buf@.subrange(pos as int, pos + 2)),
{
    LittleEndian::read_u16(&buf[pos..pos + 2])
}

/// `LittleEndian::read_u32` from `byteorder`, applied to the four bytes at `pos`.
/// Claimed: the result is those four bytes read least significant first.
#[verifier::external_body]
pub(crate) fn read_u32_at(buf: &[u8], pos: usize) -> (r: u32)
    requires
        pos + 4 <= buf@.len(),
    ensures
        r == spec_u32_from_le_bytes(buf@.subrange(pos as int, pos + 4)),
{
    LittleEndian::read_u32(&buf[pos..pos + 4])
}

/// `LittleEndian::read_u64` from `byteorder`, applied to the eight bytes at `pos`.
/// Claimed: the result is those eight bytes read least significant first.
#[verifier::external_body]
pub(crate) fn read_u64_at(buf: &[u8], pos: usize) -> (r: u64)
    requires
        pos + 8 <= buf@.len(),
    ensures
        r == spec_u64_from_le_bytes(buf@.subrange(pos as int, pos + 8)),
{
    LittleEndian::read_u64(&buf[pos..pos + 8])
}

/// `LittleEndian::write_u16` from `byteorder` into a two-byte buffer that is then
/// appended to `out`. Claimed: exactly the two little-endian bytes of `n` are appended.
#[verifier::external_body]
pub(crate) fn push_u16(out: &mut Vec<u8>, n: u16)
    ensures
        final(out)@ == old(out)@ + spec_u16_to_le_bytes(n),
{
    let mut b = [0u8; 2];
    LittleEndian::write_u16(&mut b, n);
    out.extend_from_slice(&b);
}

/// `LittleEndian::write_u32` from `byteorder` into a four-byte buffer that is then
/// appended to `out`. Claimed: exactly the four little-endian bytes of `n` are appended.
#[verifier::external_body]
pub(crate) fn push_u32(out: &mut Vec<u8>, n: u32)
    ensures
        final(out)@ == old(out)@ + spec_u32_to_le_bytes(n),
{
    let mut b = [0u8; 4];
    LittleEndian::write_u32(&mut b, n);
    out.extend_from_slice(&b);
}

/// `LittleEndian::write_u64` from `byteorder` into an eight-byte buffer that is then
/// appended to `out`. Claimed: exactly the eight little-endian bytes of `n` are appended.
#[verifier::external_body]
pub(crate) fn push_u64(out: &mut Vec<u8>, n: u64)
    ensures
        final(out)@ == old(out)@ + spec_u64_to_le_bytes(n),
{
    let mut b = [0u8; 8];
    LittleEndian::write_u64(&mut b, n);
    out.extend_from_slice(&b);
}

/// The little-endian `u32` stored at byte offset `pos` of `data`.
pub open spec fn le_u32_at(data: Seq<u8>, pos: int) -> u32 {
    spec_u32_from_le_bytes(data.subrange(pos, pos + 4))
}

/// The little-endian `u16` stored at byte offset `pos` of `data`.
pub open spec fn le_u16_at(data: Seq<u8>, pos: int) -> u16 {
    spec_u16_from_le_bytes(data.subrange(pos, pos + 2))
}

/// The little-endian `u64` stored at byte offset `pos` of `data`.
pub open spec fn le_u64_at(data: Seq<u8>, pos: int) -> u64 {
    spec_u64_from_le_bytes(data.subrange(pos, pos + 8))
}

/// Copies `len` bytes starting at `pos`.
pub(crate) fn copy_bytes(buf: &[u8], pos: usize, len: usize) -> (r: Vec<u8>)
    requires
        pos + len <= buf@.len(),
    ensures
        r@ == buf@.subrange(pos as int, pos + len),
{
    let n = buf.len();
    assert(pos + len <= n);
    let s = slice_subrange(buf, pos, pos + len);
    let mut r: Vec<u8> = Vec::new();
    let mut i: usize = 0;
    while i < len
        invariant
            pos + len <= buf@.len(),
            s@ == buf@.subrange(pos as int, pos + len),
            s@.len() == len,
            i <= len,
            r@ == s@.subrange(0, i as int),
        decreases len - i,
    {
        r.push(s[i]);
        i = i + 1;
        assert(r@ =~= s@.subrange(0, i as int));
    }
    r
}

/// Whether two byte slices hold the same bytes.
pub fn bytes_eq(a: &[u8], b: &[u8]) -> (r: bool)
    ensures
        r == (a@ == b@),
{
    if a.len() != b.len() {
        return false;
    }
    let mut i: usize = 0;
    while i < a.len()
        invariant
            a@.len() == b@.len(),
            i <= a@.len(),
            forall|k: int| 0 <= k < i ==> a@[k] == b@[k],
        decreases a@.len() - i,
    {
        if a[i] != b[i] {
            return false;
        }
        i = i + 1;
    }
    assert(a@ =~= b@);
    true
}

} // verus!

verus! {

/// The little-endian encoding of a sequence of `u32` words, one after the other.
pub open spec fn words_le(w: Seq<u32>) -> Seq<u8>
    decreases w.len(),
{
    if w.len() == 0 {
        Seq::empty()
    } else {
        words_le(w.drop_last()) + spec_u32_to_le_bytes(w.last())
    }
}

/// Each word of an encoded sequence sits at four times its index, and the
/// encoding is four bytes per word.
pub proof fn lemma_words_le(w: Seq<u32>)
    ensures
        words_le(w).len() == 4 * w.len(),
        forall|i: int| #![trigger w[i]] 0 <= i < w.len() ==>
            words_le(w).subrange(4 * i, 4 * i + 4) == spec_u32_to_le_bytes(w[i]),
    decreases w.len(),
{
    lemma_auto_spec_u32_to_from_le_bytes();
    if w.len() > 0 {
        let p = w.drop_last();
        lemma_words_le(p);
        assert forall|i: int| #![trigger w[i]] 0 <= i < w.len() implies
            words_le(w).subrange(4 * i, 4 * i + 4) == spec_u32_to_le_bytes(w[i]) by {
            if i < w.len() - 1 {
                assert(p[i] == w[i]);
                assert(words_le(w).subrange(4 * i, 4 * i + 4) =~= words_le(p).subrange(4 * i, 4 * i + 4));
            } else {
                assert(words_le(w).subrange(4 * i, 4 * i + 4) =~= spec_u32_to_le_bytes(w.last()));
            }
        }
    }
}

/// Reading word `i` of an encoding, whatever follows it, gives the word back.
pub proof fn lemma_words_le_read(w: Seq<u32>, rest: Seq<u8>, i: int)
    requires
        0 <= i < w.len(),
    ensures
        le_u32_at(words_le(w) + rest, 4 * i) == w[i],
{
    lemma_words_le(w);
    lemma_auto_spec_u32_to_from_le_bytes();
    assert((words_le(w) + rest).subrange(4 * i, 4 * i + 4) =~= words_le(w).subrange(4 * i, 4 * i + 4));
}

/// Encodes words little-endian, one after the other.
pub fn words_to_le_bytes(words: &[u32]) -> (r: Vec<u8>)
    ensures
        r@ == words_le(words@),
{
    let mut r: Vec<u8> = Vec::new();
    let mut i: usize = 0;
    while i < words.len()
        invariant
            i <= words@.len(),
            r@ == words_le(words@.subrange(0, i as int)),
        decreases words@.len() - i,
    {
        push_u32(&mut r, words[i]);
        assert(words@.subrange(0, i + 1).drop_last() =~= words@.subrange(0, i as int));
        i = i + 1;
    }
    assert(words@.subrange(0, i as int) =~= words@);
    r
}

/// Reads `count` consecutive little-endian words starting at `pos`.
pub fn read_words(buf: &[u8], pos: usize, count: usize) -> (r: Vec<u32>)
    requires
        pos + 4 * count <= buf@.len(),
    ensures
        r@.len() == count,
        forall|i: int| #![trigger r@[i]] 0 <= i < count ==> r@[i] == le_u32_at(buf@, pos + 4 * i),
{
    let n = buf.len();
    let mut r: Vec<u32> = Vec::new();
    let mut i: usize = 0;
    while i < count
        invariant
            n == buf@.len(),
            pos + 4 * count <= buf@.len(),
            i <= count,
            r@.len() == i,
            forall|k: int| #![trigger r@[k]] 0 <= k < i ==> r@[k] == le_u32_at(buf@, pos + 4 * k),
        decreases count - i,
    {
        let v = read_u32_at(buf, pos + 4 * i);
        r.push(v);
        i = i + 1;
    }
    r
}

} // verus!
