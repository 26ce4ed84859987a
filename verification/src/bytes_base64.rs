//! Stream payloads travel in JSON as standard base64 text.
use vstd::prelude::*;

verus! {

/// Why base64 text could not be decoded.
#[derive(Debug, Clone, Copy, PartialEq, Eq)]
pub enum Base64Error {
    /// A byte that is not in the alphabet, at `offset`.
    InvalidByte { offset: usize, byte: u8 },
    /// The text has a length no encoding has.
    InvalidLength { length: usize },
    /// The last symbol, at `offset`, has bits set that no encoding sets.
    InvalidLastSymbol { offset: usize, byte: u8 },
    /// Missing or extra `=` padding.
    InvalidPadding,
}

/// The symbol of the standard base64 alphabet for the six-bit value `v`:
/// `A`-`Z`, `a`-`z`, `0`-`9`, `+`, `/`.
pub open spec fn base64_symbol(v: u8) -> char {
    if v < 26 {
        (v + 65) as char
    } else if v < 52 {
        (v + 71) as char
    } else if v < 62 {
        (v - 4) as char
    } else if v == 62 {
        '+'
    } else {
        '/'
    }
}

/// The standard (RFC 4648, padded) base64 encoding of `bytes`: each group of three
/// bytes becomes four symbols of six bits each, high bits first; a last group of
/// one or two bytes is filled with zero bits and padded with `=` to four symbols.
pub open spec fn base64_of(bytes: Seq<u8>) -> Seq<char>
    decreases bytes.len(),
{
    if bytes.len() == 0 {
        Seq::empty()
    } else if bytes.len() == 1 {
        seq![base64_symbol(bytes[0] >> 2), base64_symbol((bytes[0] & 3) << 4), '=', '=']
    } else if bytes.len() == 2 {
        seq![
            base64_symbol(bytes[0] >> 2),
            base64_symbol(((bytes[0] & 3) << 4) | (bytes[1] >> 4)),
            base64_symbol((bytes[1] & 15) << 2),
            '=',
        ]
    } else {
        seq![
            base64_symbol(bytes[0] >> 2),
            base64_symbol(((bytes[0] & 3) << 4) | (bytes[1] >> 4)),
            base64_symbol(((bytes[1] & 15) << 2) | (bytes[2] >> 6)),
            base64_symbol(bytes[2] & 63),
        ] + base64_of(bytes.skip(3))
    }
}

proof fn lemma_symbol_injective(v: u8, w: u8)
    requires
        v < 64,
        w < 64,
        base64_symbol(v) == base64_symbol(w),
    ensures
        v == w,
        base64_symbol(v) != '=',
{
}

/// Calls `base64::engine::general_purpose::STANDARD.encode`. Claims that the text
/// is the standard padded base64 encoding of the bytes.
#[verifier::external_body]
fn standard_encode(bytes: &[u8]) -> (text: String)
    ensures
        text@ == base64_of(bytes@),
{
    base64::Engine::encode(&base64::engine::general_purpose::STANDARD, bytes)
}

/// Calls `base64::engine::general_purpose::STANDARD.decode` on the text's bytes.
/// That engine requires canonical padding and zero trailing bits, so it accepts
/// exactly the texts that are encodings. Claims that on success the text is the
/// encoding of the bytes returned, and that it fails only on text that encodes no
/// bytes. The error's variant and fields are the crate's, and nothing is claimed of
/// them.
#[verifier::external_body]
fn standard_decode(text: &str) -> (res: Result<Vec<u8>, Base64Error>)
    ensures
        match res {
            Ok(bytes) => base64_of(bytes@) == text@,
            Err(_) => forall|b: Seq<u8>| base64_of(b) != text@,
        },
{
    match base64::Engine::decode(&base64::engine::general_purpose::STANDARD, text) {
        Ok(bytes) => Ok(bytes),
        Err(base64::DecodeError::InvalidByte(offset, byte)) => Err(Base64Error::InvalidByte { offset, byte }),
        Err(base64::DecodeError::InvalidLength(length)) => Err(Base64Error::InvalidLength { length }),
        Err(base64::DecodeError::InvalidLastSymbol(offset, byte)) => Err(Base64Error::InvalidLastSymbol { offset, byte }),
        Err(base64::DecodeError::InvalidPadding) => Err(Base64Error::InvalidPadding),
    }
}

/// The JSON text of a payload: its standard base64 encoding.
pub fn serialize(payload: &[u8]) -> (text: String)
    ensures
        text@ == base64_of(payload@),
{
    standard_encode(payload)
}

/// The payload that JSON text stands for: the bytes whose standard base64 encoding
/// the text is, or an error when the text is the encoding of no bytes.
pub fn deserialize(text: &str) -> (res: Result<Vec<u8>, Base64Error>)
    ensures
        match res {
            Ok(bytes) => base64_of(bytes@) == text@,
            Err(_) => forall|b: Seq<u8>| base64_of(b) != text@,
        },
{
    standard_decode(text)
}

/// Three bytes are determined by the four symbols they encode to.
proof fn lemma_group_of_three(a0: u8, a1: u8, a2: u8, b0: u8, b1: u8, b2: u8)
    requires
        a0 >> 2 == b0 >> 2,
        ((a0 & 3) << 4) | (a1 >> 4) == ((b0 & 3) << 4) | (b1 >> 4),
        ((a1 & 15) << 2) | (a2 >> 6) == ((b1 & 15) << 2) | (b2 >> 6),
        a2 & 63 == b2 & 63,
    ensures
        a0 == b0,
        a1 == b1,
        a2 == b2,
{
    assert(a0 == b0 && a1 == b1 && a2 == b2) by (bit_vector)
        requires
            a0 >> 2 == b0 >> 2,
            ((a0 & 3) << 4) | (a1 >> 4) == ((b0 & 3) << 4) | (b1 >> 4),
            ((a1 & 15) << 2) | (a2 >> 6) == ((b1 & 15) << 2) | (b2 >> 6),
            a2 & 63 == b2 & 63,
    ;
}

/// Two bytes are determined by the three symbols they encode to.
proof fn lemma_group_of_two(a0: u8, a1: u8, b0: u8, b1: u8)
    requires
        a0 >> 2 == b0 >> 2,
        ((a0 & 3) << 4) | (a1 >> 4) == ((b0 & 3) << 4) | (b1 >> 4),
        (a1 & 15) << 2 == (b1 & 15) << 2,
    ensures
        a0 == b0,
        a1 == b1,
{
    assert(a0 == b0 && a1 == b1) by (bit_vector)
        requires
            a0 >> 2 == b0 >> 2,
            ((a0 & 3) << 4) | (a1 >> 4) == ((b0 & 3) << 4) | (b1 >> 4),
            (a1 & 15) << 2 == (b1 & 15) << 2,
    ;
}

/// One byte is determined by the two symbols it encodes to.
proof fn lemma_group_of_one(a0: u8, b0: u8)
    requires
        a0 >> 2 == b0 >> 2,
        (a0 & 3) << 4 == (b0 & 3) << 4,
    ensures
        a0 == b0,
{
    assert(a0 == b0) by (bit_vector)
        requires
            a0 >> 2 == b0 >> 2,
            (a0 & 3) << 4 == (b0 & 3) << 4,
    ;
}

/// Every value that goes into a symbol has six bits.
proof fn lemma_six_bits(a0: u8, a1: u8, a2: u8)
    ensures
        a0 >> 2 < 64,
        ((a0 & 3) << 4) | (a1 >> 4) < 64,
        ((a1 & 15) << 2) | (a2 >> 6) < 64,
        a2 & 63 < 64,
        (a0 & 3) << 4 < 64,
        (a1 & 15) << 2 < 64,
{
    assert(a0 >> 2 < 64 && ((a0 & 3) << 4) | (a1 >> 4) < 64 && ((a1 & 15) << 2) | (a2 >> 6) < 64 && a2
        & 63 < 64 && (a0 & 3) << 4 < 64 && (a1 & 15) << 2 < 64) by (bit_vector);
}

/// An encoding has four symbols for each group of three bytes, the last group
/// counted even when it is short.
proof fn lemma_encoding_len(b: Seq<u8>)
    ensures
        base64_of(b).len() == 4 * ((b.len() + 2) / 3),
    decreases b.len(),
{
    if b.len() >= 3 {
        lemma_encoding_len(b.skip(3));
    }
}

/// A payload sent as JSON comes back as itself: two payloads with the same text are
/// the same payload, so the bytes `deserialize` returns for the text of `serialize`
/// are the bytes that went in, and it does return them, since the text is an
/// encoding.
pub proof fn law_payload_round_trip(payload: Seq<u8>, decoded: Seq<u8>)
    requires
        base64_of(decoded) == base64_of(payload),
    ensures
        decoded == payload,
    decreases payload.len(),
{
    let a = decoded;
    let b = payload;
    lemma_encoding_len(a);
    lemma_encoding_len(b);
    let ea = base64_of(a);
    let eb = base64_of(b);
    if b.len() == 0 {
        assert(a.len() == 0);
        assert(a =~= b);
    } else {
        assert(ea.len() == eb.len());
        assert(ea[0] == eb[0] && ea[1] == eb[1] && ea[2] == eb[2] && ea[3] == eb[3]);
        if a.len() >= 1 && b.len() >= 1 {
            let x1: u8 = if a.len() >= 2 { a[1] } else { 0 };
            let x2: u8 = if a.len() >= 3 { a[2] } else { 0 };
            let y1: u8 = if b.len() >= 2 { b[1] } else { 0 };
            let y2: u8 = if b.len() >= 3 { b[2] } else { 0 };
            lemma_six_bits(a[0], x1, x2);
            lemma_six_bits(b[0], y1, y2);
        }
        if a.len() >= 3 && b.len() >= 3 {
            lemma_symbol_injective(a[0] >> 2, b[0] >> 2);
            lemma_symbol_injective(((a[0] & 3) << 4) | (a[1] >> 4), ((b[0] & 3) << 4) | (b[1] >> 4));
            lemma_symbol_injective(((a[1] & 15) << 2) | (a[2] >> 6), ((b[1] & 15) << 2) | (b[2] >> 6));
            lemma_symbol_injective(a[2] & 63, b[2] & 63);
            lemma_group_of_three(a[0], a[1], a[2], b[0], b[1], b[2]);
            assert(ea.skip(4) =~= base64_of(a.skip(3)));
            assert(eb.skip(4) =~= base64_of(b.skip(3)));
            law_payload_round_trip(b.skip(3), a.skip(3));
            assert(a =~= b.take(3) + b.skip(3));
            assert(b =~= b.take(3) + b.skip(3));
        } else if a.len() == 2 && b.len() == 2 {
            lemma_symbol_injective(a[0] >> 2, b[0] >> 2);
            lemma_symbol_injective(((a[0] & 3) << 4) | (a[1] >> 4), ((b[0] & 3) << 4) | (b[1] >> 4));
            lemma_symbol_injective((a[1] & 15) << 2, (b[1] & 15) << 2);
            lemma_group_of_two(a[0], a[1], b[0], b[1]);
            assert(a =~= b);
        } else if a.len() == 1 && b.len() == 1 {
            lemma_symbol_injective(a[0] >> 2, b[0] >> 2);
            lemma_symbol_injective((a[0] & 3) << 4, (b[0] & 3) << 4);
            lemma_group_of_one(a[0], b[0]);
            assert(a =~= b);
        } else if a.len() >= 3 {
            // the same length: `b` is one or two bytes, and its third or fourth symbol is padding
            assert(a.len() == 3);
            lemma_symbol_injective(a[2] & 63, a[2] & 63);
            if b.len() == 1 {
                lemma_symbol_injective(((a[1] & 15) << 2) | (a[2] >> 6), ((a[1] & 15) << 2) | (a[2] >> 6));
            }
        } else if b.len() >= 3 {
            assert(b.len() == 3);
            lemma_symbol_injective(b[2] & 63, b[2] & 63);
            if a.len() == 1 {
                lemma_symbol_injective(((b[1] & 15) << 2) | (b[2] >> 6), ((b[1] & 15) << 2) | (b[2] >> 6));
            }
        } else if a.len() == 1 {
            lemma_symbol_injective((b[1] & 15) << 2, (b[1] & 15) << 2);
        } else {
            lemma_symbol_injective((a[1] & 15) << 2, (a[1] & 15) << 2);
        }
    }
}

} // verus!
