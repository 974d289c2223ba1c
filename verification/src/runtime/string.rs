//! The text of a program's strings, as UTF-8 bytes.
use vstd::prelude::*;
use vstd::utf8::{
    char_is_scalar, decode_utf8, encode_scalar, encode_utf8, encode_utf8_valid_utf8, is_scalar, valid_utf8,
    valid_utf8_concat,
};

use crate::text::{cat2, decimal, number};

verus! {

/// A string's bytes.
#[derive(Debug, PartialEq, Eq)]
pub struct Text {
    pub bytes: Vec<u8>,
}

impl View for Text {
    type V = Seq<u8>;

    open spec fn view(&self) -> Seq<u8> {
        self.bytes@
    }
}

impl Text {
    /// The bytes of a string are always UTF-8.
    pub open spec fn wf(self) -> bool {
        valid_utf8(self@)
    }

    fn of(s: &str) -> (r: Text)
        ensures
            r@ == encode_utf8(s@),
            r.wf(),
    {
        let mut bytes: Vec<u8> = Vec::new();
        bytes.extend_from_slice(s.as_bytes());
        proof {
            assert(bytes@ =~= encode_utf8(s@));
            encode_utf8_valid_utf8(s@);
        }
        Text { bytes }
    }
}

/// `std::str::from_utf8`: reads bytes as text. It succeeds exactly on valid
/// UTF-8, and the text is then what the bytes encode.
#[verifier::external_body]
fn decoded(bytes: &[u8]) -> (r: Option<&str>)
    ensures
        r is Some == valid_utf8(bytes@),
        r is Some ==> r->0@ == decode_utf8(bytes@),
{
    std::str::from_utf8(bytes).ok()
}

/// A string with the given bytes; none if they are not UTF-8.
pub fn nether_rt_string_from_utf8(bytes: &[u8]) -> (r: Option<Text>)
    ensures
        r is Some == valid_utf8(bytes@),
        r is Some ==> r->0@ == bytes@ && r->0.wf(),
{
    match decoded(bytes) {
        None => None,
        Some(_) => {
            let mut copy: Vec<u8> = Vec::new();
            copy.extend_from_slice(bytes);
            proof {
                assert(copy@ =~= bytes@);
            }
            Some(Text { bytes: copy })
        },
    }
}

/// A new string: the bytes of `a`, then those of `b`.
pub fn nether_rt_string_concat(a: &Text, b: &Text) -> (r: Text)
    requires
        a.wf(),
        b.wf(),
    ensures
        r@ == a@ + b@,
        r.wf(),
{
    let mut bytes: Vec<u8> = Vec::new();
    bytes.extend_from_slice(a.bytes.as_slice());
    bytes.extend_from_slice(b.bytes.as_slice());
    proof {
        assert(bytes@ =~= a@ + b@);
        valid_utf8_concat(a@, b@);
    }
    Text { bytes }
}

/// An integer in decimal, with a minus sign before a negative one.
pub open spec fn signed_decimal(v: int) -> Seq<char> {
    if v < 0 {
        "-"@ + decimal((-v) as nat)
    } else {
        decimal(v as nat)
    }
}

/// An integer as text.
pub fn nether_rt_i64_to_string(v: i64) -> (r: Text)
    ensures
        r@ == encode_utf8(signed_decimal(v as int)),
        r.wf(),
{
    if v < 0 {
        let digits: String = number((-(v as i128)) as u128);
        Text::of(cat2("-", digits.as_str()).as_str())
    } else {
        Text::of(number(v as u128).as_str())
    }
}

/// A truth value as text; any byte but zero is true.
pub fn nether_rt_bool_to_string(v: u8) -> (r: Text)
    ensures
        r@ == encode_utf8(if v != 0 {
            "true"@
        } else {
            "false"@
        }),
        r.wf(),
{
    if v != 0 {
        Text::of("true")
    } else {
        Text::of("false")
    }
}

/// The code point that stands for one that is no Unicode scalar value.
pub const REPLACEMENT: u32 = 0xFFFD;

/// The scalar value that a code point is written as.
pub open spec fn shown_scalar(codepoint: u32) -> u32 {
    if is_scalar(codepoint) {
        codepoint
    } else {
        REPLACEMENT
    }
}

/// A character as text; U+FFFD in place of an invalid one.
pub fn nether_rt_char_to_string(codepoint: u32) -> (r: Text)
    ensures
        r@ == encode_scalar(shown_scalar(codepoint)),
        r.wf(),
{
    let valid: bool = codepoint < 0xD800 || (0xE000 <= codepoint && codepoint <= 0x10FFFF);
    let c: u32 = if valid {
        codepoint
    } else {
        REPLACEMENT
    };
    let mut bytes: Vec<u8> = Vec::new();
    if c <= 0x7F {
        bytes.push((c & 0x7F) as u8);
    } else if c <= 0x7FF {
        bytes.push(0xC0 | ((c >> 6) & 0x1F) as u8);
        bytes.push(0x80 | (c & 0x3F) as u8);
    } else if c <= 0xFFFF {
        bytes.push(0xE0 | ((c >> 12) & 0x0F) as u8);
        bytes.push(0x80 | ((c >> 6) & 0x3F) as u8);
        bytes.push(0x80 | (c & 0x3F) as u8);
    } else {
        bytes.push(0xF0 | ((c >> 18) & 0x7) as u8);
        bytes.push(0x80 | ((c >> 12) & 0x3F) as u8);
        bytes.push(0x80 | ((c >> 6) & 0x3F) as u8);
        bytes.push(0x80 | (c & 0x3F) as u8);
    }
    proof {
        assert(c == shown_scalar(codepoint));
        assert(bytes@ =~= encode_scalar(c));
        lemma_encoded_scalar(c);
    }
    Text { bytes }
}

/// The encoding of a scalar value is UTF-8.
proof fn lemma_encoded_scalar(c: u32)
    requires
        is_scalar(c),
    ensures
        valid_utf8(encode_scalar(c)),
{
    let ch = c as char;
    assert(ch as u32 == c);
    let s = seq![ch];
    assert(s.drop_first() =~= Seq::<char>::empty());
    assert(encode_utf8(s.drop_first()) =~= Seq::<u8>::empty());
    assert(encode_utf8(s) =~= encode_scalar(c));
    encode_utf8_valid_utf8(s);
}

/// The bytes of a string.
pub fn nether_rt_string_bytes(text: &Text) -> (r: &[u8])
    ensures
        r@ == text@,
{
    text.bytes.as_slice()
}

/// How many bytes a string has.
pub fn nether_rt_string_len(text: &Text) -> (r: i64)
    requires
        text@.len() <= i64::MAX,
    ensures
        r == text@.len(),
{
    text.bytes.len() as i64
}

/// The hash of no bytes.
pub const HASH_SEED: u64 = 1_469_598_103_934_665_603;

/// The factor by which each byte is mixed in.
pub const HASH_FACTOR: u64 = 1_099_511_628_211;

/// A hash after one more byte.
pub open spec fn mixed(hash: u64, byte: u8) -> u64 {
    ((hash ^ (byte as u64)) as nat * HASH_FACTOR as nat % 0x1_0000_0000_0000_0000) as u64
}

/// A hash after more bytes.
pub open spec fn hashed(hash: u64, bytes: Seq<u8>) -> u64
    decreases bytes.len(),
{
    if bytes.len() == 0 {
        hash
    } else {
        mixed(hashed(hash, bytes.drop_last()), bytes.last())
    }
}

/// The hash of a string: a function of its bytes alone.
pub fn nether_rt_string_hash(text: &Text) -> (r: u64)
    ensures
        r == hashed(HASH_SEED, text@),
{
    let mut hash: u64 = HASH_SEED;
    let mut i: usize = 0;
    while i < text.bytes.len()
        invariant
            i <= text.bytes.len(),
            hash == hashed(HASH_SEED, text@.take(i as int)),
        decreases text.bytes.len() - i,
    {
        let byte: u8 = text.bytes[i];
        hash = (hash ^ (byte as u64)).wrapping_mul(HASH_FACTOR);
        i = i + 1;
        proof {
            assert(text@.take(i as int).drop_last() =~= text@.take(i - 1));
        }
    }
    proof {
        assert(text@.take(i as int) =~= text@);
    }
    hash
}

/// Strings of the same bytes have the same hash.
pub proof fn law_equal_text_has_equal_hash(a: Text, b: Text)
    requires
        a@ == b@,
    ensures
        hashed(HASH_SEED, a@) == hashed(HASH_SEED, b@),
{
}

/// The hash of a concatenation goes on from the hash of its first part.
pub proof fn law_hash_of_concatenation(hash: u64, a: Seq<u8>, b: Seq<u8>)
    ensures
        hashed(hash, a + b) == hashed(hashed(hash, a), b),
    decreases b.len(),
{
    if b.len() == 0 {
        assert(a + b =~= a);
    } else {
        assert((a + b).drop_last() =~= a + b.drop_last());
        law_hash_of_concatenation(hash, a, b.drop_last());
    }
}

/// Every string holds UTF-8, however it was made.
pub proof fn law_strings_are_utf8(a: Text, b: Text, v: i64, codepoint: u32)
    requires
        a.wf(),
        b.wf(),
    ensures
        valid_utf8(a@ + b@),
        valid_utf8(encode_utf8(signed_decimal(v as int))),
        valid_utf8(encode_scalar(shown_scalar(codepoint))),
{
    valid_utf8_concat(a@, b@);
    encode_utf8_valid_utf8(signed_decimal(v as int));
    lemma_encoded_scalar(shown_scalar(codepoint));
}

/// A valid character reads back as itself.
pub proof fn law_char_text_reads_back(c: char)
    ensures
        decode_utf8(encode_scalar(shown_scalar(c as u32))) == seq![c],
{
    char_is_scalar(c);
    let s = seq![c];
    assert(s.drop_first() =~= Seq::<char>::empty());
    assert(encode_utf8(s.drop_first()) =~= Seq::<u8>::empty());
    assert(encode_utf8(s) =~= encode_scalar(c as u32));
    vstd::utf8::encode_utf8_decode_utf8(s);
}

} // verus!
