//! Little-endian byte codecs used by every message family.
//!
//! Writers append to a `Vec<u8>` and state exactly which bytes they append;
//! readers take a slice and a position and state exactly which value they
//! decode.  The specs reuse `vstd::bytes` for the integer encodings.

use crate::errors::SrdError;
use core::convert::TryInto;
use vstd::bytes::*;
use vstd::prelude::*;
use vstd::slice::*;
use vstd::utf8::{decode_utf8, valid_utf8};

verus! {

/// Append a single byte.
pub fn put_u8(buf: &mut Vec<u8>, x: u8)
    ensures
        final(buf)@ == old(buf)@.push(x),
{
    buf.push(x);
}

/// Append a byte slice verbatim.
pub fn put_bytes(buf: &mut Vec<u8>, bytes: &[u8])
    ensures
        final(buf)@ == old(buf)@ + bytes@,
{
    let n = bytes.len();
    let mut i: usize = 0;
    while i < n
        invariant
            i <= n,
            n == bytes@.len(),
            buf@ == old(buf)@ + bytes@.subrange(0, i as int),
        decreases n - i,
    {
        buf.push(*slice_index_get(bytes, i));
        i = i + 1;
        proof {
            assert(buf@ =~= old(buf)@ + bytes@.subrange(0, i as int));
        }
    }
    proof {
        assert(buf@ =~= old(buf)@ + bytes@);
    }
}

/// Append a `u16` in little-endian order.
pub fn put_u16_le(buf: &mut Vec<u8>, x: u16)
    ensures
        final(buf)@ == old(buf)@ + spec_u16_to_le_bytes(x),
        final(buf)@.len() == old(buf)@.len() + 2,
{
    proof {
        lemma_auto_spec_u16_to_from_le_bytes();
    }
    let b = u16_to_le_bytes(x);
    put_bytes(buf, b.as_slice());
}

/// Append a `u32` in little-endian order.
pub fn put_u32_le(buf: &mut Vec<u8>, x: u32)
    ensures
        final(buf)@ == old(buf)@ + spec_u32_to_le_bytes(x),
        final(buf)@.len() == old(buf)@.len() + 4,
{
    proof {
        lemma_auto_spec_u32_to_from_le_bytes();
    }
    let b = u32_to_le_bytes(x);
    put_bytes(buf, b.as_slice());
}

/// Read one byte at `pos`.
pub fn get_u8(data: &[u8], pos: usize) -> (x: u8)
    requires
        pos < data@.len(),
    ensures
        x == data@[pos as int],
{
    *slice_index_get(data, pos)
}

/// Decode the two bytes at `pos` as a little-endian `u16`.
pub fn get_u16_le(data: &[u8], pos: usize) -> (x: u16)
    requires
        pos + 2 <= data@.len(),
    ensures
        x == spec_u16_from_le_bytes(data@.subrange(pos as int, pos as int + 2)),
{
    let _n = data.len();
    let s = slice_subrange(data, pos, pos + 2);
    u16_from_le_bytes(s)
}

/// Decode the four bytes at `pos` as a little-endian `u32`.
pub fn get_u32_le(data: &[u8], pos: usize) -> (x: u32)
    requires
        pos + 4 <= data@.len(),
    ensures
        x == spec_u32_from_le_bytes(data@.subrange(pos as int, pos as int + 4)),
{
    let _n = data.len();
    let s = slice_subrange(data, pos, pos + 4);
    u32_from_le_bytes(s)
}

/// Copy `len` bytes starting at `pos` into a fresh vector.
pub fn get_bytes(data: &[u8], pos: usize, len: usize) -> (out: Vec<u8>)
    requires
        pos + len <= data@.len(),
    ensures
        out@ == data@.subrange(pos as int, pos as int + len as int),
{
    let _n = data.len();
    let s = slice_subrange(data, pos, pos + len);
    slice_to_vec(s)
}

/// Byte-for-byte equality of two slices.
pub fn bytes_eq(a: &[u8], b: &[u8]) -> (r: bool)
    ensures
        r == (a@ == b@),
{
    if a.len() != b.len() {
        proof {
            assert(a@.len() != b@.len());
        }
        return false;
    }
    let n = a.len();
    let mut i: usize = 0;
    while i < n
        invariant
            i <= n,
            n == a@.len(),
            n == b@.len(),
            forall|j: int| 0 <= j < i ==> a@[j] == b@[j],
        decreases n - i,
    {
        if *slice_index_get(a, i) != *slice_index_get(b, i) {
            return false;
        }
        i = i + 1;
    }
    proof {
        assert(a@ =~= b@);
    }
    true
}

/// `s` left-padded with zero bytes to length `n`; unchanged when already
/// at least that long.
pub open spec fn spec_left_pad(s: Seq<u8>, n: int) -> Seq<u8> {
    if s.len() >= n {
        s
    } else {
        Seq::<u8>::new((n - s.len()) as nat, |i: int| 0u8) + s
    }
}

/// A run of `n` zero bytes.
pub fn zero_bytes(n: usize) -> (r: Vec<u8>)
    ensures
        r@ == Seq::<u8>::new(n as nat, |i: int| 0u8),
{
    let mut out: Vec<u8> = Vec::new();
    let mut i: usize = 0;
    while i < n
        invariant
            i <= n,
            out@ =~= Seq::<u8>::new(i as nat, |j: int| 0u8),
        decreases n - i,
    {
        out.push(0u8);
        i = i + 1;
        proof {
            assert(out@ =~= Seq::<u8>::new(i as nat, |j: int| 0u8));
        }
    }
    proof {
        assert(out@ =~= Seq::<u8>::new(n as nat, |j: int| 0u8));
    }
    out
}

/// Left-pad `buffer` with zero bytes until it is `new_size` long; a buffer
/// already at least that long is unchanged.
pub fn expand_start(buffer: &mut Vec<u8>, new_size: usize)
    ensures
        final(buffer)@ == spec_left_pad(old(buffer)@, new_size as int),
        old(buffer)@.len() >= new_size ==> final(buffer)@ == old(buffer)@,
        old(buffer)@.len() < new_size ==> final(buffer)@ == Seq::<u8>::new(
            (new_size - old(buffer)@.len()) as nat,
            |i: int| 0u8,
        ) + old(buffer)@,
        final(buffer)@.len() >= new_size,
{
    if buffer.len() >= new_size {
        return;
    }
    let pad = new_size - buffer.len();
    let mut out: Vec<u8> = Vec::new();
    let mut i: usize = 0;
    while i < pad
        invariant
            i <= pad,
            out@ =~= Seq::<u8>::new(i as nat, |j: int| 0u8),
        decreases pad - i,
    {
        out.push(0u8);
        i = i + 1;
        proof {
            assert(out@ =~= Seq::<u8>::new(i as nat, |j: int| 0u8));
        }
    }
    put_bytes(&mut out, buffer.as_slice());
    *buffer = out;
}

/// Relies on std's slice-to-array `TryInto`: the 32 bytes, unchanged,
/// as a fixed-size array.
#[verifier::external_body]
pub(crate) fn to_array_32(s: &[u8]) -> (r: [u8; 32])
    requires
        s@.len() == 32,
    ensures
        r@ == s@,
{
    s.try_into().unwrap()
}

/// Relies on std's slice-to-array `TryInto`: the 256 bytes, unchanged,
/// as a fixed-size array.
#[verifier::external_body]
pub(crate) fn to_array_256(s: &[u8]) -> (r: [u8; 256])
    requires
        s@.len() == 256,
    ensures
        r@ == s@,
{
    s.try_into().unwrap()
}

/// Relies on std's `String::from_utf8`: it accepts exactly the valid
/// UTF-8 byte strings and decodes them to the characters they encode.
#[verifier::external_body]
pub(crate) fn string_from_utf8(v: Vec<u8>) -> (r: Result<String, SrdError>)
    ensures
        r is Ok <==> valid_utf8(v@),
        r is Ok ==> r->Ok_0@ == decode_utf8(v@),
{
    match String::from_utf8(v) {
        Ok(s) => Ok(s),
        Err(_) => Err(SrdError::InvalidCstr),
    }
}

} // verus!
