//! The class-file format's nonstandard multi-byte text encoding.
//!
//! Strings are stored as byte runs in which the null byte never appears
//! directly, characters up to `0x7FF` use one- or two-byte forms, characters
//! up to `0xFFFF` use a three-byte form, and supplementary-plane characters
//! use a six-byte form built from two three-byte-like groups (the fourth byte
//! of which is ignored).  [`mutf8_decode`] is the mathematical description of
//! the codec; [`modified_utf8_to_string`] is the executable decoder, proved to
//! return exactly what the description says.

use vstd::prelude::*;

verus! {

/// A violation of the multi-byte text encoding.
#[derive(Debug, Clone, PartialEq, Eq, Structural)]
pub enum MalformedModifiedUtf8 {
    /// The byte at `index` is zero or lies in `0xF0..=0xFF`, so it cannot
    /// begin a character.
    InvalidLeadingByte { index: usize },
    /// `byte` opens a multi-byte form but no byte follows it.
    UnexpectedLastByte { byte: u8 },
    /// `byte_1` and `byte_2` open a form that needs at least one more byte.
    UnexpectedLastBytes { byte_1: u8, byte_2: u8 },
    /// `byte_1`, `byte_2` and `byte_3` open the six-byte form, which needs
    /// three further bytes; only `available` more were counted.
    MissingTrailingBytes { byte_1: u8, byte_2: u8, byte_3: u8, available: usize },
    /// The reconstructed codepoint is not a valid scalar value.  `codepoint`
    /// holds the leading byte of the offending sequence and `byte_1_index`
    /// the index of the last byte consumed for it.
    InvalidCodepoint { codepoint: u32, byte_1_index: usize },
}

impl MalformedModifiedUtf8 {
    /// The error for a reconstructed value that is not a valid scalar.
    pub fn invalid_codepoint(codepoint: u32, byte_1_index: usize) -> (e: MalformedModifiedUtf8)
        ensures
            e == (MalformedModifiedUtf8::InvalidCodepoint { codepoint, byte_1_index }),
    {
        MalformedModifiedUtf8::InvalidCodepoint { codepoint, byte_1_index }
    }

    /// The error for a multi-byte form cut off after its leading byte.
    pub fn unexpected_last_byte(byte: u8) -> (e: MalformedModifiedUtf8)
        ensures
            e == (MalformedModifiedUtf8::UnexpectedLastByte { byte }),
    {
        MalformedModifiedUtf8::UnexpectedLastByte { byte }
    }
}

/// Whether `u` is a valid scalar value, that is, a value some `char` holds.
pub open spec fn scalar_ok(u: u32) -> bool {
    u < 0xD800 || (0xE000 <= u && u < 0x110000)
}

/// The codepoint of the two-byte form.
pub open spec fn two_byte_codepoint(b1: u8, b2: u8) -> u32 {
    ((((b1 as u32) & 0x1F) << 6) + ((b2 as u32) & 0x3F)) as u32
}

/// The codepoint of the three-byte form.
pub open spec fn three_byte_codepoint(b1: u8, b2: u8, b3: u8) -> u32 {
    ((((b1 as u32) & 0xF) << 12) + (((b2 as u32) & 0x3F) << 6) + ((b3 as u32) & 0x3F)) as u32
}

/// The codepoint of the six-byte supplementary form.  The leading byte and
/// the fourth byte carry no codepoint bits.
pub open spec fn six_byte_codepoint(b2: u8, b3: u8, b5: u8, b6: u8) -> u32 {
    (0x10000 + (((b2 as u32) & 0x0F) << 16) + (((b3 as u32) & 0x3F) << 10) + (((b5 as u32)
        & 0x0F) << 6) + ((b6 as u32) & 0x3F)) as u32
}

/// What decoding `s` from index `i` to its end yields: the decoded characters,
/// or the first violation encountered.  One step consumes one, two, three or
/// six bytes according to the leading byte.
pub open spec fn mutf8_decode(s: Seq<u8>, i: int) -> Result<Seq<char>, MalformedModifiedUtf8>
    decreases s.len() - i, 0int,
{
    if i < 0 || i >= s.len() {
        Ok(Seq::empty())
    } else {
        let b1 = s[i];
        if b1 == 0 || b1 >= 0xF0 {
            Err(MalformedModifiedUtf8::InvalidLeadingByte { index: i as usize })
        } else if b1 <= 0x7F {
            mutf8_decode_cons(s, i + 1, b1 as u32)
        } else if i + 1 >= s.len() {
            Err(MalformedModifiedUtf8::UnexpectedLastByte { byte: b1 })
        } else {
            let b2 = s[i + 1];
            if b1 & 0xE0 == 0xC0 {
                mutf8_decode_codepoint(s, i + 2, two_byte_codepoint(b1, b2), b1, i + 1)
            } else if i + 2 >= s.len() {
                Err(MalformedModifiedUtf8::UnexpectedLastBytes { byte_1: b1, byte_2: b2 })
            } else {
                let b3 = s[i + 2];
                if b1 & 0xF0 == 0xE0 {
                    mutf8_decode_codepoint(
                        s,
                        i + 3,
                        three_byte_codepoint(b1, b2, b3),
                        b1,
                        i + 2,
                    )
                } else if i + 5 >= s.len() {
                    Err(
                        MalformedModifiedUtf8::MissingTrailingBytes {
                            byte_1: b1,
                            byte_2: b2,
                            byte_3: b3,
                            available: (s.len() - i - 1) as usize,
                        },
                    )
                } else {
                    let b5 = s[i + 4];
                    let b6 = s[i + 5];
                    mutf8_decode_codepoint(
                        s,
                        i + 6,
                        six_byte_codepoint(b2, b3, b5, b6),
                        b1,
                        i + 5,
                    )
                }
            }
        }
    }
}

/// Validates one reconstructed codepoint and prepends it to the decoding of
/// the rest.  On an invalid scalar the error carries the sequence's leading
/// byte and the index `last` of the last byte consumed.
pub open spec fn mutf8_decode_codepoint(
    s: Seq<u8>,
    next: int,
    cp: u32,
    b1: u8,
    last: int,
) -> Result<Seq<char>, MalformedModifiedUtf8>
    decreases s.len() - next, 2int,
{
    if !scalar_ok(cp) {
        Err(
            MalformedModifiedUtf8::InvalidCodepoint {
                codepoint: b1 as u32,
                byte_1_index: last as usize,
            },
        )
    } else {
        mutf8_decode_cons(s, next, cp)
    }
}

/// Prepends the character with scalar value `cp` to the decoding of `s` from
/// `next` on.
pub open spec fn mutf8_decode_cons(s: Seq<u8>, next: int, cp: u32) -> Result<
    Seq<char>,
    MalformedModifiedUtf8,
>
    decreases s.len() - next, 1int,
{
    match mutf8_decode(s, next) {
        Ok(rest) => Ok(seq![cp as char] + rest),
        Err(e) => Err(e),
    }
}

/// Relies on `char::from_u32` of std: it returns `Some` exactly for valid
/// scalar values, and the returned character has the given value.
pub assume_specification[ char::from_u32 ](u: u32) -> (r: Option<char>)
    ensures
        r is Some <==> scalar_ok(u),
        r matches Some(c) ==> c as u32 == u,
;

/// Relies on `String::push` of std: it appends exactly the given character.
pub assume_specification[ std::string::String::push ](s: &mut String, c: char)
    ensures
        final(s)@ == old(s)@.push(c),
;

/// Decodes an entire byte run from the multi-byte text encoding, returning
/// precisely what [`mutf8_decode`] describes: the decoded text, or the first
/// violation.  Trailing truncated sequences are violations, never dropped.
pub fn modified_utf8_to_string(bytes: &Vec<u8>) -> (r: Result<String, MalformedModifiedUtf8>)
    ensures
        r matches Ok(converted) ==> mutf8_decode(bytes@, 0) == Ok::<
            Seq<char>,
            MalformedModifiedUtf8,
        >(converted@),
        r matches Err(e) ==> mutf8_decode(bytes@, 0) == Err::<Seq<char>, MalformedModifiedUtf8>(
            e,
        ),
{
    let ghost s = bytes@;
    let mut converted = String::new();
    let mut i: usize = 0;
    while i < bytes.len()
        invariant
            0 <= i <= s.len(),
            s == bytes@,
            match mutf8_decode(s, i as int) {
                Ok(rest) => mutf8_decode(s, 0) == Ok::<Seq<char>, MalformedModifiedUtf8>(
                    converted@ + rest,
                ),
                Err(e) => mutf8_decode(s, 0) == Err::<Seq<char>, MalformedModifiedUtf8>(e),
            },
        decreases s.len() - i,
    {
        let byte_1 = bytes[i];
        let code_point: u32;
        let last: usize;
        let next: usize;
        if byte_1 == 0 || byte_1 >= 0xF0 {
            return Err(MalformedModifiedUtf8::InvalidLeadingByte { index: i });
        } else if byte_1 <= 0x7F {
            code_point = byte_1 as u32;
            last = i;
            next = i + 1;
        } else if bytes.len() - i <= 1 {
            return Err(MalformedModifiedUtf8::UnexpectedLastByte { byte: byte_1 });
        } else {
            let byte_2 = bytes[i + 1];
            if byte_1 & 0xE0 == 0xC0 {
                assert((((byte_1 as u32) & 0x1F) << 6) <= 0x7C0 && ((byte_2 as u32) & 0x3F)
                    <= 0x3F) by (bit_vector);
                code_point = (((byte_1 as u32) & 0x1F) << 6) + ((byte_2 as u32) & 0x3F);
                last = i + 1;
                next = i + 2;
            } else if bytes.len() - i <= 2 {
                return Err(MalformedModifiedUtf8::UnexpectedLastBytes { byte_1, byte_2 });
            } else {
                let byte_3 = bytes[i + 2];
                if byte_1 & 0xF0 == 0xE0 {
                    assert((((byte_1 as u32) & 0xF) << 12) <= 0xF000 && (((byte_2 as u32) & 0x3F)
                        << 6) <= 0xFC0 && ((byte_3 as u32) & 0x3F) <= 0x3F) by (bit_vector);
                    code_point = (((byte_1 as u32) & 0xF) << 12) + (((byte_2 as u32) & 0x3F) << 6)
                        + ((byte_3 as u32) & 0x3F);
                    last = i + 2;
                    next = i + 3;
                } else if bytes.len() - i <= 5 {
                    return Err(
                        MalformedModifiedUtf8::MissingTrailingBytes {
                            byte_1,
                            byte_2,
                            byte_3,
                            available: bytes.len() - i - 1,
                        },
                    );
                } else {
                    let byte_5 = bytes[i + 4];
                    let byte_6 = bytes[i + 5];
                    assert((((byte_2 as u32) & 0x0F) << 16) <= 0xF0000 && (((byte_3 as u32)
                        & 0x3F) << 10) <= 0xFC00 && (((byte_5 as u32) & 0x0F) << 6) <= 0x3C0 && ((
                    byte_6 as u32) & 0x3F) <= 0x3F) by (bit_vector);
                    code_point = 0x10000 + ((((byte_2 as u32) & 0x0F) << 16) + (((byte_3 as u32)
                        & 0x3F) << 10) + (((byte_5 as u32) & 0x0F) << 6) + ((byte_6 as u32)
                        & 0x3F));
                    last = i + 5;
                    next = i + 6;
                }
            }
        }
        let c = match char::from_u32(code_point) {
            Some(c) => c,
            None => {
                return Err(
                    MalformedModifiedUtf8::InvalidCodepoint {
                        codepoint: byte_1 as u32,
                        byte_1_index: last,
                    },
                );
            },
        };
        proof {
            vstd::utf8::char_u32_cast(c, code_point);
            assert(c == code_point as char);
            assert(mutf8_decode(s, i as int) == mutf8_decode_cons(s, next as int, code_point));
            if mutf8_decode(s, next as int) is Ok {
                let rest2 = mutf8_decode(s, next as int)->Ok_0;
                assert(mutf8_decode(s, i as int) == Ok::<Seq<char>, MalformedModifiedUtf8>(
                    seq![c] + rest2,
                ));
                assert(converted@ + (seq![c] + rest2) =~= converted@.push(c) + rest2);
            } else {
                assert(mutf8_decode(s, i as int) == mutf8_decode(s, next as int));
            }
        }
        converted.push(c);
        i = next;
    }
    proof {
        assert(converted@ + Seq::<char>::empty() =~= converted@);
    }
    Ok(converted)
}

} // verus!
