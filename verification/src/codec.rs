//! Wire primitives shared by every payload codec.
//!
//! The wire format is a compact binary serialization: byte vectors and UTF-8
//! strings are prefixed with a big-endian 16-bit length, enum discriminants
//! are single bytes. Every item has exactly one encoding, and the readers
//! accept exactly the encodings, so encoding and decoding are mutually
//! inverse wherever encoding is defined.

use vstd::prelude::*;
use vstd::slice::{slice_subrange, slice_to_vec};
use vstd::utf8::{decode_utf8, encode_utf8, valid_utf8};

use crate::ProtocolError;

verus! {

/// Binary serialization shared by the payload types.
///
/// Each implementor fixes a specification-level encoding of its view;
/// `encode_to_vec` emits exactly that encoding and fails exactly on a value
/// some field of which is too long for its length prefix, and `decode_from`
/// accepts exactly the encodings.
pub trait BinCodec: Sized + View {
    /// Whether every field of `v` fits its length prefix.
    spec fn bin_encodable(v: Self::V) -> bool;

    /// The one wire encoding of `v`.
    spec fn spec_bin_encode(v: Self::V) -> Seq<u8>;

    /// The value `b` encodes, if any.
    spec fn spec_bin_decode(b: Seq<u8>) -> Option<Self::V>;

    /// Serializes this value; fails exactly when a field is too long.
    fn encode_to_vec(&self) -> (r: Result<Vec<u8>, ProtocolError>)
        ensures
            (r is Ok) == Self::bin_encodable(self@),
            r matches Ok(v) ==> v@ == Self::spec_bin_encode(self@),
            r matches Err(e) ==> e == ProtocolError::FieldTooLong,
    ;

    /// Deserializes a value; accepts exactly the encodings.
    fn decode_from(data: &[u8]) -> (r: Result<Self, ProtocolError>)
        ensures
            (r is Ok) == (Self::spec_bin_decode(data@) is Some),
            r matches Ok(p) ==> Self::spec_bin_decode(data@) == Some(p@),
            r matches Err(e) ==> e == ProtocolError::Decode,
    ;
}

// ---------------------------------------------------------------------------
// Specification-level encoders.
// ---------------------------------------------------------------------------

/// The two big-endian bytes of a 16-bit length prefix.
pub open spec fn spec_u16_be(n: u16) -> Seq<u8> {
    seq![(n / 256) as u8, (n % 256) as u8]
}

/// A byte-vector item fits the wire format when its length fits the prefix.
pub open spec fn encodable_bytes(p: Seq<u8>) -> bool {
    p.len() <= 65535
}

/// A byte-vector item: 16-bit length prefix, then the bytes themselves.
pub open spec fn spec_encode_bytes(p: Seq<u8>) -> Seq<u8> {
    spec_u16_be((p.len() % 65536) as u16) + p
}

/// A string item fits the wire format when its UTF-8 form fits the prefix.
pub open spec fn encodable_str(s: Seq<char>) -> bool {
    encodable_bytes(encode_utf8(s))
}

/// A string item: its UTF-8 bytes as a byte-vector item.
pub open spec fn spec_encode_str(s: Seq<char>) -> Seq<u8> {
    spec_encode_bytes(encode_utf8(s))
}

// ---------------------------------------------------------------------------
// Specification-level readers. Each reads one item at offset `i` and returns
// the item together with the offset just past it, or `None` when the bytes
// from `i` on do not start with a well-formed item.
// ---------------------------------------------------------------------------

pub open spec fn spec_read_u8(b: Seq<u8>, i: int) -> Option<(u8, int)> {
    if 0 <= i && i + 1 <= b.len() {
        Some((b[i], i + 1))
    } else {
        None
    }
}

pub open spec fn spec_read_u16(b: Seq<u8>, i: int) -> Option<(u16, int)> {
    if 0 <= i && i + 2 <= b.len() {
        Some(((b[i] as int * 256 + b[i + 1] as int) as u16, i + 2))
    } else {
        None
    }
}

pub open spec fn spec_read_bytes(b: Seq<u8>, i: int) -> Option<(Seq<u8>, int)> {
    match spec_read_u16(b, i) {
        Some((n, j)) => if j + n <= b.len() {
            Some((b.subrange(j, j + n), j + n))
        } else {
            None
        },
        None => None,
    }
}

pub open spec fn spec_read_str(b: Seq<u8>, i: int) -> Option<(Seq<char>, int)> {
    match spec_read_bytes(b, i) {
        Some((p, j)) => if valid_utf8(p) {
            Some((decode_utf8(p), j))
        } else {
            None
        },
        None => None,
    }
}

// ---------------------------------------------------------------------------
// Executable writers. Each appends exactly the specified encoding.
// ---------------------------------------------------------------------------

pub fn write_u8(out: &mut Vec<u8>, x: u8)
    ensures
        final(out)@ == old(out)@ + seq![x],
{
    out.push(x);
    proof {
        assert(out@ =~= old(out)@ + seq![x]);
    }
}

pub fn write_u16(out: &mut Vec<u8>, n: u16)
    ensures
        final(out)@ == old(out)@ + spec_u16_be(n),
{
    out.push((n / 256) as u8);
    out.push((n % 256) as u8);
    proof {
        assert(out@ =~= old(out)@ + spec_u16_be(n));
    }
}

/// Appends a byte-vector item; leaves `out` unchanged and reports failure
/// when the item is too long for its length prefix.
pub fn write_bytes(out: &mut Vec<u8>, p: &[u8]) -> (ok: bool)
    ensures
        ok == encodable_bytes(p@),
        ok ==> final(out)@ == old(out)@ + spec_encode_bytes(p@),
        !ok ==> final(out)@ == old(out)@,
{
    if p.len() <= 65535 {
        write_u16(out, p.len() as u16);
        let mut tail = slice_to_vec(p);
        out.append(&mut tail);
        proof {
            assert(out@ =~= old(out)@ + spec_encode_bytes(p@));
        }
        true
    } else {
        false
    }
}

/// Appends a string item; leaves `out` unchanged and reports failure when
/// the UTF-8 form of the string is too long for its length prefix.
pub fn write_str(out: &mut Vec<u8>, s: &str) -> (ok: bool)
    ensures
        ok == encodable_str(s@),
        ok ==> final(out)@ == old(out)@ + spec_encode_str(s@),
        !ok ==> final(out)@ == old(out)@,
{
    write_bytes(out, s.as_bytes())
}

// ---------------------------------------------------------------------------
// Executable readers. Each agrees with its specification reader exactly.
// ---------------------------------------------------------------------------

pub fn read_u8(b: &[u8], pos: usize) -> (r: Option<(u8, usize)>)
    requires
        pos <= b@.len(),
    ensures
        (r is Some) == (spec_read_u8(b@, pos as int) is Some),
        r matches Some(p) ==> spec_read_u8(b@, pos as int) == Some((p.0, p.1 as int)),
{
    if b.len() - pos >= 1 {
        Some((b[pos], pos + 1))
    } else {
        None
    }
}

pub fn read_u16(b: &[u8], pos: usize) -> (r: Option<(u16, usize)>)
    requires
        pos <= b@.len(),
    ensures
        (r is Some) == (spec_read_u16(b@, pos as int) is Some),
        r matches Some(p) ==> spec_read_u16(b@, pos as int) == Some((p.0, p.1 as int)),
{
    if b.len() - pos >= 2 {
        let hi = b[pos];
        let lo = b[pos + 1];
        Some(((hi as u16) * 256 + (lo as u16), pos + 2))
    } else {
        None
    }
}

pub fn read_bytes(b: &[u8], pos: usize) -> (r: Option<(Vec<u8>, usize)>)
    requires
        pos <= b@.len(),
    ensures
        (r is Some) == (spec_read_bytes(b@, pos as int) is Some),
        r matches Some(p) ==> spec_read_bytes(b@, pos as int) == Some((p.0@, p.1 as int)),
{
    match read_u16(b, pos) {
        Some((n, j)) => {
            if b.len() - j >= n as usize {
                let v = slice_to_vec(slice_subrange(b, j, j + n as usize));
                Some((v, j + n as usize))
            } else {
                None
            }
        },
        None => None,
    }
}

pub fn read_str(b: &[u8], pos: usize) -> (r: Option<(String, usize)>)
    requires
        pos <= b@.len(),
    ensures
        (r is Some) == (spec_read_str(b@, pos as int) is Some),
        r matches Some(p) ==> spec_read_str(b@, pos as int) == Some((p.0@, p.1 as int)),
{
    match read_bytes(b, pos) {
        Some((v, j)) => match string_from_utf8(v) {
            Some(s) => Some((s, j)),
            None => None,
        },
        None => None,
    }
}

// ---------------------------------------------------------------------------
// Reading an encoding back. For each item kind: reading at the start of an
// encoded item yields the item and stops just past it, whatever stands
// before and after; and conversely, whatever a reader accepts is exactly the
// encoding of what it returns. Together these make the format canonical.
// ---------------------------------------------------------------------------

pub proof fn lemma_read_u8_of(pre: Seq<u8>, x: u8, suf: Seq<u8>)
    ensures
        spec_read_u8(pre + seq![x] + suf, pre.len() as int) == Some((x, pre.len() as int + 1)),
{
    let b = pre + seq![x] + suf;
    assert(b[pre.len() as int] == x);
}

pub proof fn lemma_read_u16_of(pre: Seq<u8>, n: u16, suf: Seq<u8>)
    ensures
        spec_read_u16(pre + spec_u16_be(n) + suf, pre.len() as int) == Some((
            n,
            pre.len() as int + 2,
        )),
{
    let b = pre + spec_u16_be(n) + suf;
    assert(b[pre.len() as int] == (n / 256) as u8);
    assert(b[pre.len() as int + 1] == (n % 256) as u8);
    assert((n / 256) as u8 as int * 256 + (n % 256) as u8 as int == n as int);
}

pub proof fn lemma_read_u16_inv(b: Seq<u8>, i: int, n: u16, j: int)
    requires
        spec_read_u16(b, i) == Some((n, j)),
    ensures
        j == i + 2,
        0 <= i && i + 2 <= b.len(),
        b.subrange(i, j) == spec_u16_be(n),
{
    assert(n as int == b[i] as int * 256 + b[i + 1] as int);
    assert(b[i] as int == n as int / 256 && b[i + 1] as int == n as int % 256)
        by (nonlinear_arith)
        requires
            n as int == b[i] as int * 256 + b[i + 1] as int,
            0 <= b[i] as int <= 255,
            0 <= b[i + 1] as int <= 255,
    ;
    assert(b.subrange(i, j) =~= spec_u16_be(n));
}

pub proof fn lemma_read_bytes_of(pre: Seq<u8>, p: Seq<u8>, suf: Seq<u8>)
    requires
        encodable_bytes(p),
    ensures
        spec_read_bytes(pre + spec_encode_bytes(p) + suf, pre.len() as int) == Some((
            p,
            pre.len() as int + 2 + p.len(),
        )),
{
    let n = (p.len() % 65536) as u16;
    assert(n as int == p.len());
    let b = pre + spec_encode_bytes(p) + suf;
    assert(b =~= pre + spec_u16_be(n) + (p + suf));
    lemma_read_u16_of(pre, n, p + suf);
    assert(b.subrange(pre.len() as int + 2, pre.len() as int + 2 + n as int) =~= p);
}

pub proof fn lemma_read_bytes_inv(b: Seq<u8>, i: int, p: Seq<u8>, j: int)
    requires
        spec_read_bytes(b, i) == Some((p, j)),
    ensures
        encodable_bytes(p),
        0 <= i && i + 2 <= j <= b.len(),
        j == i + 2 + p.len(),
        b.subrange(i, j) == spec_encode_bytes(p),
{
    let (n, m) = spec_read_u16(b, i)->0;
    lemma_read_u16_inv(b, i, n, m);
    assert(b.subrange(i, j) =~= spec_u16_be(n) + p);
    assert(spec_encode_bytes(p) == spec_u16_be((p.len() % 65536) as u16) + p);
    assert((p.len() % 65536) as u16 == n);
}

pub proof fn lemma_read_str_of(pre: Seq<u8>, s: Seq<char>, suf: Seq<u8>)
    requires
        encodable_str(s),
    ensures
        spec_read_str(pre + spec_encode_str(s) + suf, pre.len() as int) == Some((
            s,
            pre.len() as int + 2 + encode_utf8(s).len(),
        )),
{
    lemma_read_bytes_of(pre, encode_utf8(s), suf);
    vstd::utf8::encode_utf8_valid_utf8(s);
    vstd::utf8::encode_utf8_decode_utf8(s);
}

pub proof fn lemma_read_str_inv(b: Seq<u8>, i: int, s: Seq<char>, j: int)
    requires
        spec_read_str(b, i) == Some((s, j)),
    ensures
        encodable_str(s),
        0 <= i && i + 2 <= j <= b.len(),
        j == i + 2 + encode_utf8(s).len(),
        b.subrange(i, j) == spec_encode_str(s),
{
    let (p, m) = spec_read_bytes(b, i)->0;
    lemma_read_bytes_inv(b, i, p, m);
    vstd::utf8::decode_utf8_encode_utf8(p);
}

/// Relies on `String::from_utf8`: it succeeds exactly on valid UTF-8 input
/// and the characters of the result re-encode to the input bytes.
#[verifier::external_body]
pub(crate) fn string_from_utf8(bytes: Vec<u8>) -> (r: Option<String>)
    ensures
        (r is Some) == valid_utf8(bytes@),
        r matches Some(s) ==> s@ == decode_utf8(bytes@) && encode_utf8(s@) == bytes@,
{
    String::from_utf8(bytes).ok()
}

} // verus!
