//! Percent-encoding of file paths in stream URLs, through the `urlencoding`
//! crate, with the encoding and decoding rules stated exactly.

use vstd::prelude::*;
use vstd::utf8::{encode_utf8, decode_utf8, valid_utf8, is_ascii_chars, is_ascii_chars_encode_utf8,
    encode_utf8_valid_utf8, encode_utf8_decode_utf8};
use std::string::FromUtf8Error;

verus! {

/// Bytes that percent-encoding leaves as they are: ASCII letters and digits
/// and `-`, `.`, `_`, `~`.
pub open spec fn is_unreserved(b: u8) -> bool {
    ||| 48 <= b <= 57
    ||| 65 <= b <= 90
    ||| 97 <= b <= 122
    ||| b == 45
    ||| b == 46
    ||| b == 95
    ||| b == 126
}

/// Upper-case hexadecimal digit for a value below 16.
pub open spec fn hex_upper(d: int) -> char {
    if d < 10 {
        ((d + 48) as u8) as char
    } else {
        ((d + 55) as u8) as char
    }
}

/// Percent-encoding of one byte.
pub open spec fn encode_byte(b: u8) -> Seq<char> {
    if is_unreserved(b) {
        seq![b as char]
    } else {
        seq!['%', hex_upper((b / 16) as int), hex_upper((b % 16) as int)]
    }
}

/// Percent-encoding of a byte sequence.
pub open spec fn percent_encode(bytes: Seq<u8>) -> Seq<char>
    decreases bytes.len(),
{
    if bytes.len() == 0 {
        seq![]
    } else {
        encode_byte(bytes[0]) + percent_encode(bytes.drop_first())
    }
}

/// A hexadecimal digit (either case).
pub open spec fn is_hex(b: u8) -> bool {
    ||| 48 <= b <= 57
    ||| 65 <= b <= 70
    ||| 97 <= b <= 102
}

/// Value of a hexadecimal digit.
pub open spec fn hex_value(b: u8) -> int {
    if 48 <= b <= 57 {
        b - 48
    } else if 65 <= b <= 70 {
        b - 55
    } else {
        b - 87
    }
}

/// Percent-decoding of a byte sequence: each `%` followed by two hex digits
/// becomes the byte they denote; every other byte, a stray `%` included,
/// stays as it is.
pub open spec fn percent_decode(bytes: Seq<u8>) -> Seq<u8>
    decreases bytes.len(),
{
    if bytes.len() == 0 {
        seq![]
    } else if bytes[0] == 37 && bytes.len() >= 3 && is_hex(bytes[1]) && is_hex(bytes[2]) {
        seq![(hex_value(bytes[1]) * 16 + hex_value(bytes[2])) as u8] + percent_decode(bytes.skip(3))
    } else {
        seq![bytes[0]] + percent_decode(bytes.drop_first())
    }
}

/// The percent-encoding of the UTF-8 bytes of `s`.
pub open spec fn url_encoded(s: Seq<char>) -> Seq<char> {
    percent_encode(encode_utf8(s))
}

/// The percent-decoding of `s`, read back as UTF-8; `None` when the decoded
/// bytes are not valid UTF-8.
pub open spec fn url_decoded(s: Seq<char>) -> Option<Seq<char>> {
    let b = percent_decode(encode_utf8(s));
    if valid_utf8(b) {
        Some(decode_utf8(b))
    } else {
        None
    }
}

/// Percent-encodes `s` with `urlencoding::encode`, which escapes every UTF-8
/// byte except ASCII alphanumerics and `-`, `.`, `_`, `~` as `%XX` with
/// upper-case hex digits; this contract states that rule.
#[verifier::external_body]
pub(crate) fn url_encode(s: &str) -> (r: String)
    ensures
        r@ == url_encoded(s@),
{
    urlencoding::encode(s).into_owned()
}

/// The error `String::from_utf8` reports.
#[verifier::external_type_specification]
#[verifier::external_body]
pub struct ExFromUtf8Error(FromUtf8Error);

/// Decodes `s` with `urlencoding::decode`: `%XX` escapes become bytes
/// (incomplete or invalid escapes are kept literally, `+` is not a space),
/// and the bytes are read as UTF-8, failing when they are not valid UTF-8;
/// this contract states that rule.
#[verifier::external_body]
pub(crate) fn url_decode(s: &str) -> (r: Result<String, FromUtf8Error>)
    ensures
        r is Ok <==> url_decoded(s@) is Some,
        r matches Ok(v) ==> url_decoded(s@) == Some(v@),
{
    match urlencoding::decode(s) {
        Ok(v) => Ok(v.into_owned()),
        Err(e) => Err(e),
    }
}

/// Characters percent-encoding can produce.
pub open spec fn is_encoded_char(c: char) -> bool {
    ||| 'a' <= c <= 'z'
    ||| 'A' <= c <= 'Z'
    ||| '0' <= c <= '9'
    ||| c == '-'
    ||| c == '.'
    ||| c == '_'
    ||| c == '~'
    ||| c == '%'
}

/// Every character of `cs` is one percent-encoding can produce.
pub open spec fn all_encoded_chars(cs: Seq<char>) -> bool {
    forall|i: int| 0 <= i < cs.len() ==> is_encoded_char(#[trigger] cs[i])
}

/// Byte-wise reading of an ASCII character sequence.
pub open spec fn ascii_bytes(cs: Seq<char>) -> Seq<u8> {
    cs.map_values(|c: char| c as u8)
}

proof fn lemma_encode_byte_chars(b: u8)
    ensures
        all_encoded_chars(encode_byte(b)),
        is_ascii_chars(encode_byte(b)),
{
    let e = encode_byte(b);
    assert forall|i: int| 0 <= i < e.len() implies is_encoded_char(#[trigger] e[i]) && '\0' <= e[i]
        <= '\u{7f}' by {
        if !is_unreserved(b) && i > 0 {
            let d: int = if i == 1 { (b / 16) as int } else { (b % 16) as int };
            assert(e[i] == hex_upper(d));
        }
    }
}

/// Percent-encoded text holds only ASCII letters, digits, `-`, `.`, `_`,
/// `~` and `%`.
pub proof fn lemma_percent_encode_chars(bytes: Seq<u8>)
    ensures
        all_encoded_chars(percent_encode(bytes)),
        is_ascii_chars(percent_encode(bytes)),
    decreases bytes.len(),
{
    if bytes.len() > 0 {
        lemma_encode_byte_chars(bytes[0]);
        lemma_percent_encode_chars(bytes.drop_first());
        let a = encode_byte(bytes[0]);
        let r = percent_encode(bytes.drop_first());
        let e = a + r;
        assert(percent_encode(bytes) == e);
        assert forall|i: int| 0 <= i < e.len() implies is_encoded_char(#[trigger] e[i]) && '\0'
            <= e[i] <= '\u{7f}' by {
            if i < a.len() {
                assert(e[i] == a[i]);
            } else {
                assert(e[i] == r[i - a.len()]);
            }
        }
    }
}

/// The UTF-8 encoding of ASCII text is its byte-wise reading.
proof fn lemma_ascii_encode_utf8(cs: Seq<char>)
    requires
        is_ascii_chars(cs),
    ensures
        encode_utf8(cs) == ascii_bytes(cs),
{
    is_ascii_chars_encode_utf8(cs);
    assert(encode_utf8(cs) =~= ascii_bytes(cs));
}

/// Decoding undoes encoding, byte for byte.
proof fn lemma_decode_encoded_bytes(bytes: Seq<u8>)
    ensures
        percent_decode(ascii_bytes(percent_encode(bytes))) == bytes,
    decreases bytes.len(),
{
    if bytes.len() == 0 {
        assert(ascii_bytes(percent_encode(bytes)) =~= Seq::<u8>::empty());
    } else {
        let b = bytes[0];
        let rest = bytes.drop_first();
        lemma_decode_encoded_bytes(rest);
        let a = encode_byte(b);
        let r = percent_encode(rest);
        let x = ascii_bytes(a + r);
        assert(ascii_bytes(a + r) =~= ascii_bytes(a) + ascii_bytes(r));
        if is_unreserved(b) {
            assert(x[0] == b);
            assert(x.drop_first() =~= ascii_bytes(r));
            assert(percent_decode(x) =~= seq![b] + rest);
        } else {
            let hi = (b / 16) as int;
            let lo = (b % 16) as int;
            assert(x[0] == 37);
            assert(x[1] == hex_upper(hi) as u8);
            assert(x[2] == hex_upper(lo) as u8);
            assert(is_hex(x[1]) && hex_value(x[1]) == hi);
            assert(is_hex(x[2]) && hex_value(x[2]) == lo);
            assert((hi * 16 + lo) as u8 == b);
            assert(x.skip(3) =~= ascii_bytes(r));
            assert(percent_decode(x) =~= seq![b] + rest);
        }
        assert(seq![b] + rest =~= bytes);
    }
}

/// Decoding a percent-encoded text gives back the text that was encoded.
pub proof fn lemma_url_roundtrip(s: Seq<char>)
    ensures
        url_decoded(url_encoded(s)) == Some(s),
        all_encoded_chars(url_encoded(s)),
{
    let b = encode_utf8(s);
    lemma_percent_encode_chars(b);
    lemma_ascii_encode_utf8(percent_encode(b));
    lemma_decode_encoded_bytes(b);
    encode_utf8_valid_utf8(s);
    encode_utf8_decode_utf8(s);
}

} // verus!
