//! Big-endian reads over an in-memory byte run.
//!
//! The class-file format stores all multi-byte integers big-endian.  Each
//! reader here takes the byte run and a cursor position and returns the value
//! together with the position just past it, or reports exhaustion.  The
//! `ser_*` functions are the byte-level serializations the contracts of the
//! whole crate are phrased in: every successful read returns a value whose
//! serialization is exactly the bytes it consumed.

use crate::parser::MalformedClassFile;
use vstd::prelude::*;

verus! {

/// The big-endian value of two bytes.
pub open spec fn u16_of(b0: u8, b1: u8) -> u16 {
    ((b0 as u16) << 8) | (b1 as u16)
}

/// The big-endian value of four bytes.
pub open spec fn u32_of(b0: u8, b1: u8, b2: u8, b3: u8) -> u32 {
    ((b0 as u32) << 24) | ((b1 as u32) << 16) | ((b2 as u32) << 8) | (b3 as u32)
}

/// The two big-endian bytes of `v`.
pub open spec fn ser_u16(v: u16) -> Seq<u8> {
    seq![((v >> 8) & 0xFF) as u8, (v & 0xFF) as u8]
}

/// The four big-endian bytes of `v`.
pub open spec fn ser_u32(v: u32) -> Seq<u8> {
    seq![
        ((v >> 24) & 0xFF) as u8,
        ((v >> 16) & 0xFF) as u8,
        ((v >> 8) & 0xFF) as u8,
        (v & 0xFF) as u8,
    ]
}

/// Serializing the value read from two bytes gives back those bytes.
pub proof fn lemma_u16_of_bytes(b0: u8, b1: u8)
    ensures
        ser_u16(u16_of(b0, b1)) == seq![b0, b1],
{
    let v = u16_of(b0, b1);
    assert(v == ((b0 as u16) << 8) | (b1 as u16) ==> ((v >> 8) & 0xFF) == b0 as u16 && (v & 0xFF)
        == b1 as u16) by (bit_vector);
    assert(ser_u16(v) =~= seq![b0, b1]);
}

/// Serializing the value read from four bytes gives back those bytes.
pub proof fn lemma_u32_of_bytes(b0: u8, b1: u8, b2: u8, b3: u8)
    ensures
        ser_u32(u32_of(b0, b1, b2, b3)) == seq![b0, b1, b2, b3],
{
    let v = u32_of(b0, b1, b2, b3);
    assert(v == ((b0 as u32) << 24) | ((b1 as u32) << 16) | ((b2 as u32) << 8) | (b3 as u32)
        ==> ((v >> 24) & 0xFF) == b0 as u32 && ((v >> 16) & 0xFF) == b1 as u32 && ((v >> 8) & 0xFF)
        == b2 as u32 && (v & 0xFF) == b3 as u32) by (bit_vector);
    assert(ser_u32(v) =~= seq![b0, b1, b2, b3]);
}

/// Reads one byte.
pub fn read_u8(data: &Vec<u8>, pos: usize) -> (r: Result<(u8, usize), MalformedClassFile>)
    ensures
        pos < data@.len() ==> (r matches Ok((b, end)) && b == data@[pos as int] && end == pos
            + 1),
        pos >= data@.len() ==> r == Err::<(u8, usize), MalformedClassFile>(
            MalformedClassFile::UnexpectedEof,
        ),
{
    if pos < data.len() {
        Ok((data[pos], pos + 1))
    } else {
        Err(MalformedClassFile::UnexpectedEof)
    }
}

/// Reads a big-endian two-byte integer.
pub fn read_u16(data: &Vec<u8>, pos: usize) -> (r: Result<(u16, usize), MalformedClassFile>)
    ensures
        pos + 2 <= data@.len() ==> (r matches Ok((v, end)) && v == u16_of(
            data@[pos as int],
            data@[pos + 1],
        ) && end == pos + 2 && ser_u16(v) == data@.subrange(pos as int, pos + 2)),
        pos + 2 > data@.len() ==> r == Err::<(u16, usize), MalformedClassFile>(
            MalformedClassFile::UnexpectedEof,
        ),
{
    if pos < data.len() && data.len() - pos >= 2 {
        let b0 = data[pos];
        let b1 = data[pos + 1];
        let v = ((b0 as u16) << 8) | (b1 as u16);
        proof {
            lemma_u16_of_bytes(b0, b1);
            assert(seq![b0, b1] =~= data@.subrange(pos as int, pos + 2));
        }
        Ok((v, pos + 2))
    } else {
        Err(MalformedClassFile::UnexpectedEof)
    }
}

/// Reads a big-endian four-byte integer.
pub fn read_u32(data: &Vec<u8>, pos: usize) -> (r: Result<(u32, usize), MalformedClassFile>)
    ensures
        pos + 4 <= data@.len() ==> (r matches Ok((v, end)) && v == u32_of(
            data@[pos as int],
            data@[pos + 1],
            data@[pos + 2],
            data@[pos + 3],
        ) && end == pos + 4 && ser_u32(v) == data@.subrange(pos as int, pos + 4)),
        pos + 4 > data@.len() ==> r == Err::<(u32, usize), MalformedClassFile>(
            MalformedClassFile::UnexpectedEof,
        ),
{
    if pos < data.len() && data.len() - pos >= 4 {
        let b0 = data[pos];
        let b1 = data[pos + 1];
        let b2 = data[pos + 2];
        let b3 = data[pos + 3];
        let v = ((b0 as u32) << 24) | ((b1 as u32) << 16) | ((b2 as u32) << 8) | (b3 as u32);
        proof {
            lemma_u32_of_bytes(b0, b1, b2, b3);
            assert(seq![b0, b1, b2, b3] =~= data@.subrange(pos as int, pos + 4));
        }
        Ok((v, pos + 4))
    } else {
        Err(MalformedClassFile::UnexpectedEof)
    }
}

/// Reads a run of `n` raw bytes.
pub fn read_bytes(data: &Vec<u8>, pos: usize, n: usize) -> (r: Result<
    (Vec<u8>, usize),
    MalformedClassFile,
>)
    ensures
        pos + n <= data@.len() ==> (r matches Ok((v, end)) && v@ == data@.subrange(
            pos as int,
            pos + n,
        ) && end == pos + n),
        pos + n > data@.len() ==> r == Err::<(Vec<u8>, usize), MalformedClassFile>(
            MalformedClassFile::UnexpectedEof,
        ),
{
    if n > data.len() || pos > data.len() - n {
        return Err(MalformedClassFile::UnexpectedEof);
    }
    let mut v: Vec<u8> = Vec::new();
    let mut j: usize = 0;
    while j < n
        invariant
            pos + n <= data@.len(),
            data@.len() <= usize::MAX,
            j <= n,
            v@ == data@.subrange(pos as int, pos + j),
        decreases n - j,
    {
        proof {
            assert(pos + j < data@.len());
        }
        v.push(data[pos + j]);
        proof {
            assert(v@ =~= data@.subrange(pos as int, pos + j + 1));
        }
        j = j + 1;
    }
    Ok((v, pos + n))
}


/// A two-byte serialization determines its value.
pub proof fn lemma_ser_u16_inverse(v: u16, b0: u8, b1: u8)
    requires
        ser_u16(v) == seq![b0, b1],
    ensures
        v == u16_of(b0, b1),
{
    lemma_u16_of_bytes(b0, b1);
    let w = u16_of(b0, b1);
    assert(ser_u16(v)[0] == ser_u16(w)[0] && ser_u16(v)[1] == ser_u16(w)[1]);
    assert((((v >> 8) & 0xFF) as u8 == ((w >> 8) & 0xFF) as u8 && (v & 0xFF) as u8 == (w
        & 0xFF) as u8) ==> v == w) by (bit_vector);
}

/// A four-byte serialization determines its value.
pub proof fn lemma_ser_u32_inverse(v: u32, b0: u8, b1: u8, b2: u8, b3: u8)
    requires
        ser_u32(v) == seq![b0, b1, b2, b3],
    ensures
        v == u32_of(b0, b1, b2, b3),
{
    lemma_u32_of_bytes(b0, b1, b2, b3);
    let w = u32_of(b0, b1, b2, b3);
    assert(ser_u32(v)[0] == ser_u32(w)[0] && ser_u32(v)[1] == ser_u32(w)[1] && ser_u32(v)[2]
        == ser_u32(w)[2] && ser_u32(v)[3] == ser_u32(w)[3]);
    assert((((v >> 24) & 0xFF) as u8 == ((w >> 24) & 0xFF) as u8 && ((v >> 16) & 0xFF) as u8 == ((
    w >> 16) & 0xFF) as u8 && ((v >> 8) & 0xFF) as u8 == ((w >> 8) & 0xFF) as u8 && (v
        & 0xFF) as u8 == (w & 0xFF) as u8) ==> v == w) by (bit_vector);
}

} // verus!
