//! The calls into other crates, which are believed and not proved, and the text of what they
//! return.
use sha2::Digest;
use vstd::prelude::*;

use crate::text::string_of;

verus! {

/// The SHA-256 digest of some bytes.
pub uninterp spec fn sha256(bytes: Seq<u8>) -> Seq<u8>;

/// The lower-case hexadecimal digit of a value below sixteen.
pub open spec fn hex_digit(value: int) -> char {
    if value < 10 {
        (('0' as u8) + value) as u8 as char
    } else {
        (('a' as u8) + (value - 10)) as u8 as char
    }
}

/// The lower-case hexadecimal text of some bytes, the high half of each byte first.
pub open spec fn hex_text(bytes: Seq<u8>) -> Seq<char> {
    Seq::new(
        2 * bytes.len(),
        |i: int|
            if i % 2 == 0 {
                hex_digit(bytes[i / 2] as int / 16)
            } else {
                hex_digit(bytes[i / 2] as int % 16)
            },
    )
}

fn hex_char(value: u8) -> (r: char)
    requires
        value < 16,
    ensures
        r == hex_digit(value as int),
{
    if value < 10 {
        (48u8 + value) as char
    } else {
        (97u8 + (value - 10)) as char
    }
}

/// The lower-case hexadecimal text of some bytes.
pub fn hex_encode(bytes: &[u8]) -> (r: String)
    ensures
        r@ == hex_text(bytes@),
{
    let mut out: Vec<char> = Vec::new();
    let mut i: usize = 0;
    while i < bytes.len()
        invariant
            i <= bytes@.len(),
            out@ == hex_text(bytes@.subrange(0, i as int)),
        decreases bytes@.len() - i,
    {
        let ghost done = bytes@.subrange(0, i as int);
        let ghost upto = bytes@.subrange(0, i + 1);
        out.push(hex_char(bytes[i] / 16));
        out.push(hex_char(bytes[i] % 16));
        proof {
            assert forall|k: int| 0 <= k < out@.len() implies #[trigger] out@[k] == hex_text(
                upto,
            )[k] by {
                if k < 2 * i {
                    assert(hex_text(done)[k] == hex_text(upto)[k]);
                }
            }
            assert(out@ =~= hex_text(upto));
        }
        i = i + 1;
    }
    assert(bytes@.subrange(0, bytes@.len() as int) =~= bytes@);
    string_of(out.as_slice())
}

/// Whether a character is a lower-case hexadecimal digit.
pub open spec fn is_lower_hex(c: char) -> bool {
    '0' <= c <= '9' || 'a' <= c <= 'f'
}

/// Whether a text is a hyphenated UUID in lower case.
pub open spec fn is_uuid_text(s: Seq<char>) -> bool {
    &&& s.len() == 36
    &&& forall|i: int|
        0 <= i < 36 ==> if i == 8 || i == 13 || i == 18 || i == 23 {
            #[trigger] s[i] == '-'
        } else {
            is_lower_hex(s[i])
        }
}

/// `sha2::Sha256::digest`: the digest is a function of the bytes alone, and has 32 bytes.
#[verifier::external_body]
pub(crate) fn sha256_digest(bytes: &[u8]) -> (r: Vec<u8>)
    ensures
        r@ == sha256(bytes@),
        r@.len() == 32,
{
    sha2::Sha256::digest(bytes).to_vec()
}

/// `uuid::Uuid::new_v4`, as text: a hyphenated lower-case UUID of version 4. Which one it is
/// depends on chance.
#[verifier::external_body]
pub(crate) fn new_uuid_v4() -> (r: String)
    ensures
        is_uuid_text(r@),
        r@[14] == '4',
{
    uuid::Uuid::new_v4().to_string()
}

/// A byte is written as two digits, the high half first, each from `0` to `9` or `a` to `f`, so
/// that different bytes have different texts.
pub proof fn bytes_are_written_in_two_digits(bytes: Seq<u8>, i: int)
    requires
        0 <= i < bytes.len(),
    ensures
        hex_text(bytes).len() == 2 * bytes.len(),
        is_lower_hex(hex_text(bytes)[2 * i]),
        is_lower_hex(hex_text(bytes)[2 * i + 1]),
        hex_digit_value(hex_text(bytes)[2 * i]) * 16 + hex_digit_value(hex_text(bytes)[2 * i + 1])
            == bytes[i],
{
    let byte = bytes[i];
    lemma_hex_digit(byte as int / 16);
    lemma_hex_digit(byte as int % 16);
}

/// The value of a hexadecimal digit.
pub open spec fn hex_digit_value(c: char) -> int {
    if '0' <= c <= '9' {
        c as u32 - 48
    } else {
        c as u32 - 87
    }
}

proof fn lemma_hex_digit(value: int)
    requires
        0 <= value < 16,
    ensures
        is_lower_hex(hex_digit(value)),
        hex_digit_value(hex_digit(value)) == value,
{
}

/// A UUID is written in five groups of eight, four, four, four and twelve digits.
pub proof fn uuids_have_five_groups(s: Seq<char>, i: int)
    requires
        is_uuid_text(s),
        0 <= i < s.len(),
    ensures
        s.len() == 36,
        s[i] == '-' <==> i == 8 || i == 13 || i == 18 || i == 23,
        s[i] != '-' ==> ('0' <= s[i] && s[i] <= '9') || ('a' <= s[i] && s[i] <= 'f'),
{
    assert(s[8] == '-' && s[13] == '-' && s[18] == '-' && s[23] == '-');
    if !(i == 8 || i == 13 || i == 18 || i == 23) {
        assert(is_lower_hex(s[i])) by {
            let c = s[i];
        }
    }
}

} // verus!
