//! Identifiers for new products and events: a few bytes of a SHA-256 digest of
//! the call's inputs, written as upper-case hexadecimal behind a fixed prefix.
//!
//! Only three or four digest bytes are kept, so two calls can produce the same
//! identifier; equal inputs always do.

use vstd::prelude::*;
use vstd::string::*;
use sha2::{Digest, Sha256};

verus! {

/// The SHA-256 digest of `data`.
pub uninterp spec fn sha256(data: Seq<u8>) -> Seq<u8>;

/// Calls `sha2::Sha256::digest` on `data` and copies the output array into a
/// vector. Trusted: the result is the digest named by [`sha256`], and it is
/// 32 bytes long, the output size that the crate fixes for `Sha256`.
#[verifier::external_body]
fn sha256_digest(data: &[u8]) -> (digest: Vec<u8>)
    ensures
        digest@ == sha256(data@),
        digest@.len() == 32,
{
    Sha256::digest(data).to_vec()
}

/// The ASCII decimal digits of `n`, most significant first, without padding.
pub open spec fn decimal_digits(n: nat) -> Seq<u8>
    decreases n,
{
    if n < 10 {
        seq![(48 + n) as u8]
    } else {
        decimal_digits(n / 10).push((48 + n % 10) as u8)
    }
}

/// The upper-case hexadecimal digit for `d`, which is below 16.
pub open spec fn hex_digit(d: nat) -> char {
    if d == 0 {
        '0'
    } else if d == 1 {
        '1'
    } else if d == 2 {
        '2'
    } else if d == 3 {
        '3'
    } else if d == 4 {
        '4'
    } else if d == 5 {
        '5'
    } else if d == 6 {
        '6'
    } else if d == 7 {
        '7'
    } else if d == 8 {
        '8'
    } else if d == 9 {
        '9'
    } else if d == 10 {
        'A'
    } else if d == 11 {
        'B'
    } else if d == 12 {
        'C'
    } else if d == 13 {
        'D'
    } else if d == 14 {
        'E'
    } else {
        'F'
    }
}

/// The last `width` upper-case hexadecimal digits of `n`, most significant
/// first, padded with zeros on the left.
pub open spec fn hex_upper(n: nat, width: nat) -> Seq<char>
    decreases width,
{
    if width == 0 {
        Seq::empty()
    } else {
        hex_upper(n / 16, (width - 1) as nat).push(hex_digit(n % 16))
    }
}

/// The bytes that are hashed for a product identifier: the category in
/// UTF-8, a hyphen, and the timestamp in decimal.
pub open spec fn product_id_preimage(category: Seq<char>, timestamp: u64) -> Seq<u8> {
    vstd::utf8::encode_utf8(category) + seq![45u8] + decimal_digits(timestamp as nat)
}

/// The bytes that are hashed for an event identifier: the timestamp in decimal.
pub open spec fn event_id_preimage(timestamp: u64) -> Seq<u8> {
    decimal_digits(timestamp as nat)
}

/// The first three bytes of `digest` read as one big-endian number.
pub open spec fn leading_u24(digest: Seq<u8>) -> nat
    recommends
        digest.len() >= 3,
{
    (digest[0] as nat) * 65536 + (digest[1] as nat) * 256 + digest[2] as nat
}

/// The first four bytes of `digest` read as one big-endian number.
pub open spec fn leading_u32(digest: Seq<u8>) -> nat
    recommends
        digest.len() >= 4,
{
    (digest[0] as nat) * 16777216 + (digest[1] as nat) * 65536 + (digest[2] as nat) * 256
        + digest[3] as nat
}

/// The product identifier made from `digest`: `CT-2024-` and six hex digits.
pub open spec fn product_id_text(digest: Seq<u8>) -> Seq<char> {
    seq!['C', 'T', '-', '2', '0', '2', '4', '-'] + hex_upper(leading_u24(digest), 6)
}

/// The event identifier made from `digest`: `EVT-` and eight hex digits.
pub open spec fn event_id_text(digest: Seq<u8>) -> Seq<char> {
    seq!['E', 'V', 'T', '-'] + hex_upper(leading_u32(digest), 8)
}

/// The identifier of a product of `category` registered at `timestamp`.
pub open spec fn product_id_for(category: Seq<char>, timestamp: u64) -> Seq<char> {
    product_id_text(sha256(product_id_preimage(category, timestamp)))
}

/// The identifier of an event recorded at `timestamp`.
pub open spec fn event_id_for(timestamp: u64) -> Seq<char> {
    event_id_text(sha256(event_id_preimage(timestamp)))
}

/// `c` is one of the sixteen upper-case hexadecimal digits.
pub open spec fn is_hex_digit(c: char) -> bool {
    exists|d: nat| d < 16 && c == #[trigger] hex_digit(d)
}

/// `hex_upper` writes exactly `width` characters, each a hexadecimal digit.
pub proof fn lemma_hex_upper_shape(n: nat, width: nat)
    ensures
        hex_upper(n, width).len() == width,
        forall|i: int| 0 <= i < width ==> is_hex_digit(#[trigger] hex_upper(n, width)[i]),
    decreases width,
{
    if width > 0 {
        lemma_hex_upper_shape(n / 16, (width - 1) as nat);
        assert(is_hex_digit(hex_digit(n % 16)));
    }
}

/// Every product identifier is `CT-2024-` followed by six hexadecimal digits.
pub proof fn lemma_product_id_shape(digest: Seq<u8>)
    ensures
        product_id_text(digest).len() == 14,
        product_id_text(digest).take(8) == seq!['C', 'T', '-', '2', '0', '2', '4', '-'],
        forall|i: int| 8 <= i < 14 ==> is_hex_digit(#[trigger] product_id_text(digest)[i]),
{
    lemma_hex_upper_shape(leading_u24(digest), 6);
    let digits = hex_upper(leading_u24(digest), 6);
    assert(product_id_text(digest).take(8) =~= seq!['C', 'T', '-', '2', '0', '2', '4', '-']);
    assert forall|i: int| 8 <= i < 14 implies is_hex_digit(#[trigger] product_id_text(digest)[i]) by {
        assert(product_id_text(digest)[i] == digits[i - 8]);
    }
}

/// Every event identifier is `EVT-` followed by eight hexadecimal digits.
pub proof fn lemma_event_id_shape(digest: Seq<u8>)
    ensures
        event_id_text(digest).len() == 12,
        event_id_text(digest).take(4) == seq!['E', 'V', 'T', '-'],
        forall|i: int| 4 <= i < 12 ==> is_hex_digit(#[trigger] event_id_text(digest)[i]),
{
    lemma_hex_upper_shape(leading_u32(digest), 8);
    let digits = hex_upper(leading_u32(digest), 8);
    assert(event_id_text(digest).take(4) =~= seq!['E', 'V', 'T', '-']);
    assert forall|i: int| 4 <= i < 12 implies is_hex_digit(#[trigger] event_id_text(digest)[i]) by {
        assert(event_id_text(digest)[i] == digits[i - 4]);
    }
}

/// Appends the decimal digits of `n` to `buf`.
fn push_decimal(buf: &mut Vec<u8>, n: u64)
    ensures
        final(buf)@ == old(buf)@ + decimal_digits(n as nat),
    decreases n,
{
    if n >= 10 {
        push_decimal(buf, n / 10);
    }
    let digit: u8 = (n % 10) as u8;
    buf.push(48 + digit);
}

fn hex_digit_str(d: u32) -> (s: &'static str)
    requires
        d < 16,
    ensures
        s@ == seq![hex_digit(d as nat)],
{
    proof {
        reveal_strlit("0");
        reveal_strlit("1");
        reveal_strlit("2");
        reveal_strlit("3");
        reveal_strlit("4");
        reveal_strlit("5");
        reveal_strlit("6");
        reveal_strlit("7");
        reveal_strlit("8");
        reveal_strlit("9");
        reveal_strlit("A");
        reveal_strlit("B");
        reveal_strlit("C");
        reveal_strlit("D");
        reveal_strlit("E");
        reveal_strlit("F");
    }
    let s: &'static str = if d == 0 {
        "0"
    } else if d == 1 {
        "1"
    } else if d == 2 {
        "2"
    } else if d == 3 {
        "3"
    } else if d == 4 {
        "4"
    } else if d == 5 {
        "5"
    } else if d == 6 {
        "6"
    } else if d == 7 {
        "7"
    } else if d == 8 {
        "8"
    } else if d == 9 {
        "9"
    } else if d == 10 {
        "A"
    } else if d == 11 {
        "B"
    } else if d == 12 {
        "C"
    } else if d == 13 {
        "D"
    } else if d == 14 {
        "E"
    } else {
        "F"
    };
    assert(s@ =~= seq![hex_digit(d as nat)]);
    s
}

/// Appends the last `width` hexadecimal digits of `n` to `text`.
fn append_hex(text: &mut String, n: u32, width: u32)
    ensures
        final(text)@ == old(text)@ + hex_upper(n as nat, width as nat),
    decreases width,
{
    if width > 0 {
        append_hex(text, n / 16, width - 1);
        text.append(hex_digit_str(n % 16));
    }
}

/// Writes the product identifier for a digest: the prefix `CT-2024-` and the
/// first three digest bytes as six upper-case hexadecimal digits.
pub fn product_id_from_digest(digest: &[u8]) -> (id: String)
    requires
        digest@.len() >= 3,
    ensures
        id@ == product_id_text(digest@),
{
    let value: u32 = (digest[0] as u32) * 65536 + (digest[1] as u32) * 256 + digest[2] as u32;
    let mut id: String = String::from_str("CT-2024-");
    proof {
        reveal_strlit("CT-2024-");
        assert(id@ =~= seq!['C', 'T', '-', '2', '0', '2', '4', '-']);
    }
    append_hex(&mut id, value, 6);
    id
}

/// Writes the event identifier for a digest: the prefix `EVT-` and the first
/// four digest bytes as eight upper-case hexadecimal digits.
pub fn event_id_from_digest(digest: &[u8]) -> (id: String)
    requires
        digest@.len() >= 4,
    ensures
        id@ == event_id_text(digest@),
{
    let value: u32 = (digest[0] as u32) * 16777216 + (digest[1] as u32) * 65536 + (
    digest[2] as u32) * 256 + digest[3] as u32;
    let mut id: String = String::from_str("EVT-");
    proof {
        reveal_strlit("EVT-");
        assert(id@ =~= seq!['E', 'V', 'T', '-']);
    }
    append_hex(&mut id, value, 8);
    id
}

/// Derives the identifier of a product of `category` registered at
/// `timestamp` from the SHA-256 digest of `category`, a hyphen and the
/// timestamp in decimal.
pub fn generate_product_id(category: &str, timestamp: u64) -> (id: String)
    ensures
        id@ == product_id_for(category@, timestamp),
{
    let mut preimage: Vec<u8> = category.as_bytes_vec();
    preimage.push(45u8);
    push_decimal(&mut preimage, timestamp);
    assert(preimage@ =~= product_id_preimage(category@, timestamp));
    let digest: Vec<u8> = sha256_digest(preimage.as_slice());
    product_id_from_digest(digest.as_slice())
}

/// Derives the identifier of an event recorded at `timestamp` from the
/// SHA-256 digest of the timestamp in decimal.
pub fn generate_event_id(timestamp: u64) -> (id: String)
    ensures
        id@ == event_id_for(timestamp),
{
    let mut preimage: Vec<u8> = Vec::new();
    push_decimal(&mut preimage, timestamp);
    assert(preimage@ =~= event_id_preimage(timestamp));
    let digest: Vec<u8> = sha256_digest(preimage.as_slice());
    event_id_from_digest(digest.as_slice())
}

} // verus!
