//! Keys as path segments of a URL.

use vstd::prelude::*;
use vstd::utf8::*;

verus! {

/// Whether a byte stands for itself in a path segment: an ASCII letter or digit, or one of
/// `-`, `.`, `_` and `~`.
pub open spec fn unreserved(byte: u8) -> bool {
    ||| '0' <= byte as char <= '9'
    ||| 'A' <= byte as char <= 'Z'
    ||| 'a' <= byte as char <= 'z'
    ||| byte as char == '-'
    ||| byte as char == '.'
    ||| byte as char == '_'
    ||| byte as char == '~'
}

/// The upper-case hexadecimal digit of a number below sixteen.
pub open spec fn hex_digit(n: int) -> char {
    if n < 10 {
        ('0' as int + n) as char
    } else {
        ('A' as int + (n - 10)) as char
    }
}

/// A byte in a path segment: itself, or a percent sign and its two hexadecimal digits.
pub open spec fn encoded_byte(byte: u8) -> Seq<char> {
    if unreserved(byte) {
        seq![byte as char]
    } else {
        seq!['%', hex_digit(byte as int / 16), hex_digit(byte as int % 16)]
    }
}

/// Bytes in a path segment, one after another.
pub open spec fn encoded_bytes(bytes: Seq<u8>) -> Seq<char>
    decreases bytes.len(),
{
    if bytes.len() == 0 {
        seq![]
    } else {
        encoded_byte(bytes[0]) + encoded_bytes(bytes.drop_first())
    }
}

/// A string in a path segment: its UTF-8 bytes, percent-encoded.
pub open spec fn url_encoded(s: Seq<char>) -> Seq<char> {
    encoded_bytes(encode_utf8(s))
}

/// `urlencoding::encode`: percent-encodes every byte of the string's UTF-8 encoding except
/// ASCII letters and digits and `-`, `.`, `_` and `~`.
#[verifier::external_body]
pub(crate) fn url_encode(s: &str) -> (r: String)
    ensures
        r@ == url_encoded(s@),
{
    urlencoding::encode(s).into_owned()
}

proof fn lemma_hex_digit_injective(m: int, n: int)
    requires
        0 <= m < 16,
        0 <= n < 16,
        hex_digit(m) == hex_digit(n),
    ensures
        m == n,
{
    assert(hex_digit(m) as int == if m < 10 { 0x30 + m } else { 0x41 + m - 10 });
    assert(hex_digit(n) as int == if n < 10 { 0x30 + n } else { 0x41 + n - 10 });
}

proof fn lemma_encoded_byte_injective(a: u8, rest_a: Seq<char>, b: u8, rest_b: Seq<char>)
    requires
        encoded_byte(a) + rest_a == encoded_byte(b) + rest_b,
    ensures
        a == b,
        rest_a == rest_b,
{
    let (ea, eb) = (encoded_byte(a), encoded_byte(b));
    let whole = ea + rest_a;
    assert(whole[0] == ea[0] && whole[0] == eb[0]);
    if !unreserved(a) && !unreserved(b) {
        assert(whole[1] == ea[1] && whole[1] == eb[1]);
        assert(whole[2] == ea[2] && whole[2] == eb[2]);
        lemma_hex_digit_injective(a as int / 16, b as int / 16);
        lemma_hex_digit_injective(a as int % 16, b as int % 16);
    }
    assert(a == b);
    assert(rest_a =~= whole.skip(ea.len() as int));
    assert(rest_b =~= whole.skip(eb.len() as int));
}

proof fn lemma_encoded_bytes_injective(a: Seq<u8>, b: Seq<u8>)
    requires
        encoded_bytes(a) == encoded_bytes(b),
    ensures
        a == b,
    decreases a.len(),
{
    if a.len() == 0 || b.len() == 0 {
        if a.len() > 0 {
            assert(encoded_bytes(a).len() >= encoded_byte(a[0]).len());
        }
        if b.len() > 0 {
            assert(encoded_bytes(b).len() >= encoded_byte(b[0]).len());
        }
        assert(a =~= b);
    } else {
        let (rest_a, rest_b) = (a.drop_first(), b.drop_first());
        lemma_encoded_byte_injective(a[0], encoded_bytes(rest_a), b[0], encoded_bytes(rest_b));
        lemma_encoded_bytes_injective(rest_a, rest_b);
        assert(a =~= seq![a[0]] + rest_a);
        assert(b =~= seq![b[0]] + rest_b);
    }
}

/// Two strings with the same path segment are the same string.
pub proof fn law_segments_tell_keys_apart(a: Seq<char>, b: Seq<char>)
    requires
        url_encoded(a) == url_encoded(b),
    ensures
        a == b,
{
    lemma_encoded_bytes_injective(encode_utf8(a), encode_utf8(b));
    encode_utf8_decode_utf8(a);
    encode_utf8_decode_utf8(b);
}

proof fn lemma_encoded_bytes_plain(bytes: Seq<u8>, i: int)
    requires
        0 <= i < encoded_bytes(bytes).len(),
    ensures
        encoded_bytes(bytes)[i] == '%' || exists|byte: u8|
            unreserved(byte) && encoded_bytes(bytes)[i] == byte as char,
    decreases bytes.len(),
{
    let head = encoded_byte(bytes[0]);
    let rest = encoded_bytes(bytes.drop_first());
    if i < head.len() {
        assert((head + rest)[i] == head[i]);
        if unreserved(bytes[0]) {
        } else if i > 0 {
            let n = if i == 1 {
                bytes[0] as int / 16
            } else {
                bytes[0] as int % 16
            };
            assert(head[i] == hex_digit(n));
            let byte = if n < 10 {
                (0x30 + n) as u8
            } else {
                (0x41 + n - 10) as u8
            };
            assert(unreserved(byte) && head[i] == byte as char);
        }
    } else {
        assert((head + rest)[i] == rest[i - head.len()]);
        lemma_encoded_bytes_plain(bytes.drop_first(), i - head.len());
    }
}

/// The path segment of a string holds nothing that ends a segment or a path: only percent
/// signs and characters that stand for themselves.
pub proof fn law_segment_is_plain(s: Seq<char>, i: int)
    requires
        0 <= i < url_encoded(s).len(),
    ensures
        url_encoded(s)[i] == '%' || exists|byte: u8|
            unreserved(byte) && url_encoded(s)[i] == byte as char,
        url_encoded(s)[i] != '/' && url_encoded(s)[i] != '?' && url_encoded(s)[i] != '#',
{
    lemma_encoded_bytes_plain(encode_utf8(s), i);
}

/// Letters, digits and the signs `-`, `.`, `_` and `~` stand for themselves in a path segment; any
/// other byte is a percent sign and two upper-case hexadecimal digits, the high one first.
pub proof fn law_bytes_are_written_out(byte: u8, high: int, low: int)
    requires
        byte == 16 * high + low,
        0 <= low < 16,
    ensures
        ({
            let letter = 'a' <= byte as char <= 'z' || 'A' <= byte as char <= 'Z';
            let itself = letter || '0' <= byte as char <= '9' || byte == 0x2d || byte == 0x2e || byte
                == 0x5f || byte == 0x7e;
            &&& itself ==> encoded_byte(byte) == seq![byte as char]
            &&& !itself ==> encoded_byte(byte).len() == 3 && encoded_byte(byte)[0] == '%'
            &&& !itself && high < 10 ==> encoded_byte(byte)[1] as int == 0x30 + high
            &&& !itself && high >= 10 ==> encoded_byte(byte)[1] as int == 0x41 + high - 10
            &&& !itself && low < 10 ==> encoded_byte(byte)[2] as int == 0x30 + low
            &&& !itself && low >= 10 ==> encoded_byte(byte)[2] as int == 0x41 + low - 10
        }),
{
}

/// Bytes are written out one after another.
pub proof fn law_bytes_are_written_in_order(byte: u8, bytes: Seq<u8>)
    ensures
        encoded_bytes(seq![]) == Seq::<char>::empty(),
        encoded_bytes(seq![byte] + bytes) == encoded_byte(byte) + encoded_bytes(bytes),
{
    assert((seq![byte] + bytes).drop_first() =~= bytes);
}

} // verus!
