//! Opaque identifier codec: an identifier travels in URLs as the unpadded
//! base32hex (RFC 4648, section 7) text of its 16 bytes, 26 characters from
//! `0-9A-V`. This is a reversible encoding, not encryption: it hides only the
//! raw shape of identifiers, not their value.

use crate::identifier::Identifier;
use vstd::prelude::*;
use vstd::string::StringSliceAdditionalSpecFns;
use vstd::utf8::is_ascii_chars;

verus! {

broadcast use vstd::string::is_ascii_spec_bytes;

/// Number of characters in the text of one identifier.
pub const ENCODED_LEN: usize = 26;

/// The base32hex symbol for a 5-bit value.
pub open spec fn base32hex_symbol(d: int) -> char {
    if d < 10 {
        ((48 + d) as u8) as char
    } else {
        ((55 + d) as u8) as char
    }
}

/// Bit `k` of the bytes `b` read most significant bit first, and 0 past the end.
pub open spec fn bit_of(b: Seq<u8>, k: int) -> int {
    if 0 <= k < 8 * b.len() {
        ((b[k / 8] >> ((7 - k % 8) as u8)) & 1u8) as int
    } else {
        0
    }
}

/// The value of the `i`-th group of five bits of `b`.
pub open spec fn base32hex_digit(b: Seq<u8>, i: int) -> int {
    16 * bit_of(b, 5 * i) + 8 * bit_of(b, 5 * i + 1) + 4 * bit_of(b, 5 * i + 2) + 2 * bit_of(
        b,
        5 * i + 3,
    ) + bit_of(b, 5 * i + 4)
}

/// Unpadded base32hex text of 16 bytes: 130 bits (the 128 of the bytes and two
/// zero bits) cut into 26 groups of five, each written as one symbol.
pub open spec fn base32hex_of(b: Seq<u8>) -> Seq<char> {
    Seq::new(26, |i: int| base32hex_symbol(base32hex_digit(b, i)))
}

/// Whether `s` is the text of some identifier.
pub open spec fn encodes_identifier(s: Seq<char>) -> bool {
    exists|v: Seq<u8>| v.len() == 16 && #[trigger] base32hex_of(v) == s
}

/// Why a text is not the text of an identifier.
#[derive(Clone, Copy, Debug, PartialEq, Eq, Structural)]
pub enum DecodeError {
    /// A character outside the alphabet, or non-zero trailing bits.
    InvalidAlphabet,
    /// The text does not have the length of an identifier's text.
    InvalidLength,
}

/// Relies on `data_encoding::BASE32HEX_NOPAD.encode`: the unpadded base32hex
/// text (symbols `0-9A-V`, most significant bit first) of the bytes.
#[verifier::external_body]
fn base32hex_encode(bytes: &[u8; 16]) -> (r: String)
    ensures
        r@ == base32hex_of(bytes@),
{
    data_encoding::BASE32HEX_NOPAD.encode(bytes)
}

/// Relies on `data_encoding::BASE32HEX_NOPAD.decode` on 26 ASCII characters:
/// it accepts exactly the canonical texts (symbols `0-9A-V` only, trailing
/// bits zero), which decode to 16 bytes, and it inverts `encode`. Its error
/// value is dropped: on these inputs it only tells a bad symbol from
/// non-zero trailing bits.
#[verifier::external_body]
fn base32hex_decode(s: &str) -> (r: Option<Vec<u8>>)
    requires
        is_ascii_chars(s@),
        s@.len() == 26,
    ensures
        r is Some ==> r->Some_0@.len() == 16 && base32hex_of(r->Some_0@) == s@,
        forall|v: Seq<u8>|
            v.len() == 16 && #[trigger] base32hex_of(v) == s@ ==> (r is Some && r->Some_0@ == v),
{
    data_encoding::BASE32HEX_NOPAD.decode(s.as_bytes()).ok()
}

proof fn lemma_bit_range(b: Seq<u8>, k: int)
    ensures
        0 <= bit_of(b, k) <= 1,
{
    if 0 <= k < 8 * b.len() {
        let x = b[k / 8];
        let n = (7 - k % 8) as u8;
        assert((x >> n) & 1u8 <= 1u8) by (bit_vector);
    }
}

proof fn lemma_symbols_ascii(b: Seq<u8>)
    ensures
        is_ascii_chars(base32hex_of(b)),
        base32hex_of(b).len() == 26,
{
    assert forall|i: int| 0 <= i < 26 implies '\0' <= #[trigger] base32hex_of(b)[i] <= '\u{7f}' by {
        let d = base32hex_digit(b, i);
        lemma_bit_range(b, 5 * i);
        lemma_bit_range(b, 5 * i + 1);
        lemma_bit_range(b, 5 * i + 2);
        lemma_bit_range(b, 5 * i + 3);
        lemma_bit_range(b, 5 * i + 4);
        assert(0 <= d < 32);
    }
}

proof fn lemma_byte_from_bits(x: u8, y: u8)
    requires
        (x >> 7u8) & 1u8 == (y >> 7u8) & 1u8,
        (x >> 6u8) & 1u8 == (y >> 6u8) & 1u8,
        (x >> 5u8) & 1u8 == (y >> 5u8) & 1u8,
        (x >> 4u8) & 1u8 == (y >> 4u8) & 1u8,
        (x >> 3u8) & 1u8 == (y >> 3u8) & 1u8,
        (x >> 2u8) & 1u8 == (y >> 2u8) & 1u8,
        (x >> 1u8) & 1u8 == (y >> 1u8) & 1u8,
        (x >> 0u8) & 1u8 == (y >> 0u8) & 1u8,
    ensures
        x == y,
{
    assert(x == y) by (bit_vector)
        requires
            (x >> 7u8) & 1u8 == (y >> 7u8) & 1u8,
            (x >> 6u8) & 1u8 == (y >> 6u8) & 1u8,
            (x >> 5u8) & 1u8 == (y >> 5u8) & 1u8,
            (x >> 4u8) & 1u8 == (y >> 4u8) & 1u8,
            (x >> 3u8) & 1u8 == (y >> 3u8) & 1u8,
            (x >> 2u8) & 1u8 == (y >> 2u8) & 1u8,
            (x >> 1u8) & 1u8 == (y >> 1u8) & 1u8,
            (x >> 0u8) & 1u8 == (y >> 0u8) & 1u8,
    ;
}

proof fn lemma_same_digit_same_bits(a: Seq<u8>, b: Seq<u8>, i: int)
    requires
        base32hex_symbol(base32hex_digit(a, i)) == base32hex_symbol(base32hex_digit(b, i)),
    ensures
        bit_of(a, 5 * i) == bit_of(b, 5 * i),
        bit_of(a, 5 * i + 1) == bit_of(b, 5 * i + 1),
        bit_of(a, 5 * i + 2) == bit_of(b, 5 * i + 2),
        bit_of(a, 5 * i + 3) == bit_of(b, 5 * i + 3),
        bit_of(a, 5 * i + 4) == bit_of(b, 5 * i + 4),
{
    lemma_bit_range(a, 5 * i);
    lemma_bit_range(b, 5 * i);
    lemma_bit_range(a, 5 * i + 1);
    lemma_bit_range(b, 5 * i + 1);
    lemma_bit_range(a, 5 * i + 2);
    lemma_bit_range(b, 5 * i + 2);
    lemma_bit_range(a, 5 * i + 3);
    lemma_bit_range(b, 5 * i + 3);
    lemma_bit_range(a, 5 * i + 4);
    lemma_bit_range(b, 5 * i + 4);
    let da = base32hex_digit(a, i);
    let db = base32hex_digit(b, i);
    assert(0 <= da < 32 && 0 <= db < 32);
    assert(da == db);
}

proof fn lemma_bit_in_byte(a: Seq<u8>, b: Seq<u8>, j: int, m: int)
    requires
        a.len() == 16,
        b.len() == 16,
        0 <= j < 16,
        0 <= m < 8,
        bit_of(a, 8 * j + m) == bit_of(b, 8 * j + m),
    ensures
        (a[j] >> ((7 - m) as u8)) & 1u8 == (b[j] >> ((7 - m) as u8)) & 1u8,
{
    let k = 8 * j + m;
    assert(k / 8 == j && k % 8 == m);
}

/// Distinct identifiers have distinct texts, so decoding a text has at most
/// one answer.
pub proof fn lemma_base32hex_injective(a: Seq<u8>, b: Seq<u8>)
    requires
        a.len() == 16,
        b.len() == 16,
        base32hex_of(a) == base32hex_of(b),
    ensures
        a == b,
{
    assert forall|k: int| 0 <= k < 128 implies #[trigger] bit_of(a, k) == bit_of(b, k) by {
        let i = k / 5;
        assert(0 <= i < 26);
        assert(base32hex_of(a)[i] == base32hex_of(b)[i]);
        assert(base32hex_of(a)[i] == base32hex_symbol(base32hex_digit(a, i)));
        assert(base32hex_of(b)[i] == base32hex_symbol(base32hex_digit(b, i)));
        lemma_same_digit_same_bits(a, b, i);
        assert(k == 5 * i + k % 5);
    }
    assert forall|j: int| 0 <= j < 16 implies a[j] == b[j] by {
        lemma_bit_in_byte(a, b, j, 0);
        lemma_bit_in_byte(a, b, j, 1);
        lemma_bit_in_byte(a, b, j, 2);
        lemma_bit_in_byte(a, b, j, 3);
        lemma_bit_in_byte(a, b, j, 4);
        lemma_bit_in_byte(a, b, j, 5);
        lemma_bit_in_byte(a, b, j, 6);
        lemma_bit_in_byte(a, b, j, 7);
        lemma_byte_from_bits(a[j], b[j]);
    }
    assert(a =~= b);
}

/// Decoding the text of an identifier gives back that identifier: the text
/// is one that decoding accepts, and no other identifier has that text.
pub proof fn lemma_decode_encode_round_trip(x: Identifier)
    ensures
        encodes_identifier(base32hex_of(x@)),
        forall|y: Identifier| #[trigger] base32hex_of(y@) == base32hex_of(x@) ==> y@ == x@,
{
    broadcast use crate::identifier::lemma_identifier_len;

    assert(base32hex_of(x@) == base32hex_of(x@));
    assert forall|y: Identifier| #[trigger] base32hex_of(y@) == base32hex_of(x@) implies y@ == x@ by {
        lemma_base32hex_injective(y@, x@);
    }
}

/// The text of an identifier.
pub fn uuid_to_base32hex(uuid: Identifier) -> (r: String)
    ensures
        r@ == base32hex_of(uuid@),
        r@.len() == ENCODED_LEN,
        is_ascii_chars(r@),
{
    let bytes = uuid.to_bytes();
    let r = base32hex_encode(&bytes);
    proof {
        lemma_symbols_ascii(uuid@);
    }
    r
}

/// Reads an identifier back from its text.
pub fn base32hex_to_uuid(base32hex: &str) -> (r: Result<Identifier, DecodeError>)
    ensures
        r is Ok <==> encodes_identifier(base32hex@),
        r matches Ok(id) ==> base32hex_of(id@) == base32hex@,
        !is_ascii_chars(base32hex@) ==> r == Err::<Identifier, DecodeError>(
            DecodeError::InvalidAlphabet,
        ),
        is_ascii_chars(base32hex@) && base32hex@.len() != ENCODED_LEN ==> r == Err::<
            Identifier,
            DecodeError,
        >(DecodeError::InvalidLength),
        is_ascii_chars(base32hex@) && base32hex@.len() == ENCODED_LEN && r is Err ==> r == Err::<
            Identifier,
            DecodeError,
        >(DecodeError::InvalidAlphabet),
{
    if !base32hex.is_ascii() {
        proof {
            if encodes_identifier(base32hex@) {
                let v = choose|v: Seq<u8>| v.len() == 16 && #[trigger] base32hex_of(v) == base32hex@;
                lemma_symbols_ascii(v);
            }
        }
        return Err(DecodeError::InvalidAlphabet);
    }
    proof {
        vstd::string::is_ascii_spec_bytes(base32hex);
    }
    if base32hex.as_bytes().len() != ENCODED_LEN {
        proof {
            if encodes_identifier(base32hex@) {
                let v = choose|v: Seq<u8>| v.len() == 16 && #[trigger] base32hex_of(v) == base32hex@;
                lemma_symbols_ascii(v);
            }
        }
        return Err(DecodeError::InvalidLength);
    }
    match base32hex_decode(base32hex) {
        Some(bytes) => {
            match Identifier::from_slice(bytes.as_slice()) {
                Some(id) => Ok(id),
                None => Err(DecodeError::InvalidLength),
            }
        },
        None => {
            proof {
                if encodes_identifier(base32hex@) {
                    let v = choose|v: Seq<u8>|
                        v.len() == 16 && #[trigger] base32hex_of(v) == base32hex@;
                    assert(base32hex_of(v) == base32hex@);
                }
            }
            Err(DecodeError::InvalidAlphabet)
        },
    }
}

} // verus!
