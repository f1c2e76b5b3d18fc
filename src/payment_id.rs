use vstd::prelude::*;

verus! {

/// An 8-byte opaque payment identifier, compared byte for byte.
#[derive(Clone, Copy, Debug, PartialEq, Eq, Hash)]
pub struct PaymentId(pub [u8; 8]);

/// The lower-case hexadecimal digit for a value below sixteen.
pub open spec fn hex_digit(v: int) -> char {
    seq!['0', '1', '2', '3', '4', '5', '6', '7', '8', '9', 'a', 'b', 'c', 'd', 'e', 'f'][v]
}

/// Whether a byte is a hexadecimal digit of either case.
pub open spec fn is_hex_byte(c: u8) -> bool {
    (48 <= c <= 57) || (65 <= c <= 70) || (97 <= c <= 102)
}

/// The value of a hexadecimal digit byte.
pub open spec fn hex_value(c: u8) -> int {
    if 48 <= c <= 57 {
        c - 48
    } else if 65 <= c <= 70 {
        c - 55
    } else {
        c - 87
    }
}

/// The text form of a byte sequence: two lower-case digits per byte, high nibble first.
pub open spec fn is_hex_of(text: Seq<char>, bytes: Seq<u8>) -> bool {
    &&& text.len() == 2 * bytes.len()
    &&& forall|i: int|
        0 <= i < bytes.len() ==> {
            &&& #[trigger] text[2 * i] == hex_digit(bytes[i] as int / 16)
            &&& text[2 * i + 1] == hex_digit(bytes[i] as int % 16)
        }
}

/// The bytes that a hexadecimal text of even length denotes, upper or lower case.
pub open spec fn decodes_to(text: Seq<u8>, bytes: Seq<u8>) -> bool {
    &&& text.len() == 2 * bytes.len()
    &&& forall|i: int|
        0 <= i < bytes.len() ==> #[trigger] bytes[i] == hex_value(text[2 * i]) * 16 + hex_value(
            text[2 * i + 1],
        )
}

/// Whether every byte of a text is a hexadecimal digit.
pub open spec fn all_hex(text: Seq<u8>) -> bool {
    forall|i: int| 0 <= i < text.len() ==> is_hex_byte(#[trigger] text[i])
}

/// The identifier's bytes read as a big-endian unsigned integer.
pub open spec fn key_of(b: Seq<u8>) -> int {
    b[0] * 0x100000000000000 + b[1] * 0x1000000000000 + b[2] * 0x10000000000 + b[3]
        * 0x100000000 + b[4] * 0x1000000 + b[5] * 0x10000 + b[6] * 0x100 + b[7]
}

/// Relies on hex::encode: each byte becomes two lower-case digits, high nibble first.
#[verifier::external_body]
fn encode_hex(bytes: &[u8; 8]) -> (r: String)
    ensures
        is_hex_of(r@, bytes@),
{
    hex::encode(bytes)
}

/// Relies on hex::decode_to_slice: it succeeds exactly when the text has twice the
/// output's length and holds only hexadecimal digits of either case, and then
/// fills the output with the bytes those digit pairs denote.
#[verifier::external_body]
fn decode_hex(text: &[u8]) -> (r: Option<[u8; 8]>)
    ensures
        r.is_some() <==> (text@.len() == 16 && all_hex(text@)),
        r matches Some(b) ==> decodes_to(text@, b@),
{
    let mut out = [0u8; 8];
    match hex::decode_to_slice(text, &mut out) {
        Ok(()) => Some(out),
        Err(_) => None,
    }
}

impl PaymentId {
    /// The ledger key of this identifier: its bytes as a big-endian integer.
    pub open spec fn spec_key(&self) -> u64 {
        key_of(self.0@) as u64
    }

    /// The ledger key of this identifier.
    pub fn key(&self) -> (r: u64)
        ensures
            r == self.spec_key(),
            r == key_of(self.0@),
    {
        let b = &self.0;
        let r: u64 = b[0] as u64 * 0x100000000000000 + b[1] as u64 * 0x1000000000000 + b[2] as u64
            * 0x10000000000 + b[3] as u64 * 0x100000000 + b[4] as u64 * 0x1000000 + b[5] as u64
            * 0x10000 + b[6] as u64 * 0x100 + b[7] as u64;
        r
    }

    /// The canonical text form: sixteen lower-case hexadecimal digits.
    pub fn to_hex(&self) -> (r: String)
        ensures
            r@.len() == 16,
            is_hex_of(r@, self.0@),
    {
        encode_hex(&self.0)
    }

    /// Reads an identifier from its text form; digits of either case are accepted.
    pub fn from_hex(text: &[u8]) -> (r: Option<PaymentId>)
        ensures
            r.is_some() <==> (text@.len() == 16 && all_hex(text@)),
            r matches Some(id) ==> decodes_to(text@, id.0@),
    {
        match decode_hex(text) {
            Some(b) => Some(PaymentId(b)),
            None => None,
        }
    }
}

} // verus!
