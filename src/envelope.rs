//! The signed envelope: a header, one 66-byte signature per guardian, and a
//! body whose fields stand at fixed offsets.
use vstd::prelude::*;
use crate::encoding::{copy_range, decode_hex, encode_hex, hex_bytes, hex_lower, is_hex_text};

verus! {

/// Bytes taken by the header: version, guardian-set index, signature count.
pub const HEADER_LEN: usize = 6;

/// Bytes taken by one guardian signature.
pub const SIGNATURE_LEN: usize = 66;

/// Offset of the payload within the body; the body must hold more bytes than this.
pub const PAYLOAD_OFFSET: usize = 51;

/// Why an envelope could not be read.
#[derive(Clone, Copy, Debug, PartialEq, Eq, Structural)]
pub enum ParseError {
    /// The envelope ends before its payload begins.
    Truncated,
    /// The text is not hexadecimal.
    BadEncoding,
}

/// The fields of an envelope's body.
#[derive(Clone, Debug)]
pub struct ParsedVaaBody {
    pub emitter_chain: u16,
    /// The 32-byte emitter address as 64 lower-case hexadecimal digits.
    pub emitter_address: String,
    pub sequence: u64,
    pub payload: Vec<u8>,
}

/// Where the body begins: after the header and `n` signatures, `n` being byte 5.
pub open spec fn body_offset(b: Seq<u8>) -> int {
    6 + 66 * b[5]
}

/// An envelope long enough to hold its header, its signatures, the fixed body
/// fields and at least one payload byte.
pub open spec fn is_complete(b: Seq<u8>) -> bool {
    b.len() >= 6 && b.len() > body_offset(b) + 51
}

/// Big-endian value of the two bytes at `i`.
pub open spec fn be16(b: Seq<u8>, i: int) -> int {
    b[i] as int * 0x100 + b[i + 1] as int
}

/// Big-endian value of the eight bytes at `i`.
pub open spec fn be64(b: Seq<u8>, i: int) -> int {
    b[i] as int * 0x100000000000000 + b[i + 1] as int * 0x1000000000000 + b[i + 2] as int
        * 0x10000000000 + b[i + 3] as int * 0x100000000 + b[i + 4] as int * 0x1000000
        + b[i + 5] as int * 0x10000 + b[i + 6] as int * 0x100 + b[i + 7] as int
}

/// `p` holds the body fields of the complete envelope `b`.
pub open spec fn body_matches(p: ParsedVaaBody, b: Seq<u8>) -> bool {
    let o = body_offset(b);
    &&& p.emitter_chain == be16(b, o + 8)
    &&& p.emitter_address@ == hex_lower(b.subrange(o + 10, o + 42))
    &&& p.sequence == be64(b, o + 42)
    &&& p.payload@ == b.subrange(o + 51, b.len() as int)
}

/// `r` is what reading the envelope bytes `b` gives: its body when complete,
/// else a truncation error.
pub open spec fn parse_outcome(r: Result<ParsedVaaBody, ParseError>, b: Seq<u8>) -> bool {
    match r {
        Ok(p) => is_complete(b) && body_matches(p, b),
        Err(e) => !is_complete(b) && e == ParseError::Truncated,
    }
}

/// `r` is what reading the hexadecimal envelope text `s` gives.
pub open spec fn parse_text_outcome(r: Result<ParsedVaaBody, ParseError>, s: Seq<char>) -> bool {
    if is_hex_text(s) {
        parse_outcome(r, hex_bytes(s))
    } else {
        r matches Err(ParseError::BadEncoding)
    }
}

/// Reads the body of a raw envelope.
pub fn parse_envelope(b: &[u8]) -> (r: Result<ParsedVaaBody, ParseError>)
    ensures
        parse_outcome(r, b@),
{
    if b.len() < HEADER_LEN {
        return Err(ParseError::Truncated);
    }
    let o: usize = HEADER_LEN + SIGNATURE_LEN * (b[5] as usize);
    if b.len() <= o + PAYLOAD_OFFSET {
        return Err(ParseError::Truncated);
    }
    let emitter_chain: u16 = (b[o + 8] as u16) * 0x100 + (b[o + 9] as u16);
    let address = copy_range(b, o + 10, o + 42);
    let emitter_address = encode_hex(address.as_slice());
    let sequence: u64 = (b[o + 42] as u64) * 0x100000000000000 + (b[o + 43] as u64)
        * 0x1000000000000 + (b[o + 44] as u64) * 0x10000000000 + (b[o + 45] as u64)
        * 0x100000000 + (b[o + 46] as u64) * 0x1000000 + (b[o + 47] as u64) * 0x10000 + (b[o
        + 48] as u64) * 0x100 + (b[o + 49] as u64);
    let payload = copy_range(b, o + PAYLOAD_OFFSET, b.len());
    Ok(ParsedVaaBody { emitter_chain, emitter_address, sequence, payload })
}

/// Decodes hexadecimal envelope text and reads its body. Text that is not
/// hexadecimal is refused before any field is read.
pub fn parse_vaa_body(vaa_hex: &str) -> (r: Result<ParsedVaaBody, ParseError>)
    ensures
        parse_text_outcome(r, vaa_hex@),
{
    match decode_hex(vaa_hex) {
        None => Err(ParseError::BadEncoding),
        Some(bytes) => parse_envelope(bytes.as_slice()),
    }
}

} // verus!
