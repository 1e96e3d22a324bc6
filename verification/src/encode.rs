//! Percent-encoding of values in a query string.

use vstd::prelude::*;

verus! {

/// Whether a byte stands for itself in an encoded text: a letter, a digit, or one
/// of `-`, `.`, `_` and `~`.
pub open spec fn unreserved(b: u8) -> bool {
    ||| 0x30 <= b <= 0x39
    ||| 0x41 <= b <= 0x5a
    ||| 0x61 <= b <= 0x7a
    ||| b == 0x2d
    ||| b == 0x2e
    ||| b == 0x5f
    ||| b == 0x7e
}

/// A hexadecimal digit, upper case.
pub open spec fn hex_digit(n: int) -> char {
    if n < 10 {
        (0x30 + n) as char
    } else {
        (0x41 + n - 10) as char
    }
}

/// One byte, encoded: itself, or `%` and two hexadecimal digits.
pub open spec fn encoded_byte(b: u8) -> Seq<char> {
    if unreserved(b) {
        seq![b as char]
    } else {
        seq!['%', hex_digit(b as int / 16), hex_digit(b as int % 16)]
    }
}

/// Bytes, encoded one after the other.
pub open spec fn percent_encoded(bytes: Seq<u8>) -> Seq<char>
    decreases bytes.len(),
{
    if bytes.len() == 0 {
        Seq::empty()
    } else {
        encoded_byte(bytes[0]) + percent_encoded(bytes.skip(1))
    }
}

/// A text as it stands in a query string: its UTF-8 bytes, encoded.
pub open spec fn url_encoded(s: Seq<char>) -> Seq<char> {
    percent_encoded(vstd::utf8::encode_utf8(s))
}

/// Calls `urlencoding::encode`: every byte of the UTF-8 text is kept where it is a
/// letter, a digit, `-`, `.`, `_` or `~`, and otherwise becomes `%` and its two
/// hexadecimal digits in upper case.
#[verifier::external_body]
pub(crate) fn url_encode(s: &str) -> (encoded: String)
    ensures
        encoded@ == url_encoded(s@),
{
    urlencoding::encode(s).into_owned()
}

/// Whether `c` can stand in an encoded text.
pub open spec fn encoded_char(c: char) -> bool {
    c == '%' || (c as int <= 0x7e && unreserved(c as u8))
}

proof fn lemma_percent_encoded_is_safe(bytes: Seq<u8>)
    ensures
        forall|i: int| 0 <= i < percent_encoded(bytes).len() ==> encoded_char(#[trigger]
            percent_encoded(bytes)[i]),
    decreases bytes.len(),
{
    if bytes.len() > 0 {
        lemma_percent_encoded_is_safe(bytes.skip(1));
        let head = encoded_byte(bytes[0]);
        let rest = percent_encoded(bytes.skip(1));
        assert forall|i: int| 0 <= i < (head + rest).len() implies encoded_char(#[trigger] (head
            + rest)[i]) by {
            if i >= head.len() {
                assert((head + rest)[i] == rest[i - head.len()]);
            }
        }
    }
}

/// An encoded text holds letters, digits, `-`, `.`, `_`, `~` and `%` and nothing
/// else: no value can end its own parameter, or begin another.
pub proof fn law_encoded_stays_in_its_parameter(s: Seq<char>)
    ensures
        forall|i: int| 0 <= i < url_encoded(s).len() ==> encoded_char(#[trigger]
            url_encoded(s)[i]),
        !url_encoded(s).contains('&'),
        !url_encoded(s).contains('='),
        !url_encoded(s).contains('#'),
        !url_encoded(s).contains('/'),
{
    lemma_percent_encoded_is_safe(vstd::utf8::encode_utf8(s));
}

proof fn lemma_percent_encoded_injective(a: Seq<u8>, b: Seq<u8>)
    requires
        percent_encoded(a) == percent_encoded(b),
    ensures
        a == b,
    decreases a.len(),
{
    let x = percent_encoded(a);
    if a.len() == 0 {
        if b.len() > 0 {
            assert(x.len() == encoded_byte(b[0]).len() + percent_encoded(b.skip(1)).len());
        }
        assert(a =~= b);
    } else if b.len() == 0 {
        assert(x.len() == encoded_byte(a[0]).len() + percent_encoded(a.skip(1)).len());
    } else {
        let ha = encoded_byte(a[0]);
        let hb = encoded_byte(b[0]);
        let ra = percent_encoded(a.skip(1));
        let rb = percent_encoded(b.skip(1));
        assert(x[0] == ha[0] && x[0] == hb[0]);
        if !unreserved(a[0]) && !unreserved(b[0]) {
            assert(x[1] == ha[1] && x[1] == hb[1]);
            assert(x[2] == ha[2] && x[2] == hb[2]);
            assert(a[0] as int == (a[0] as int / 16) * 16 + a[0] as int % 16);
            assert(b[0] as int == (b[0] as int / 16) * 16 + b[0] as int % 16);
        }
        assert(a[0] == b[0]);
        assert(ra =~= x.skip(ha.len() as int));
        assert(rb =~= x.skip(hb.len() as int));
        lemma_percent_encoded_injective(a.skip(1), b.skip(1));
        assert(a =~= seq![a[0]] + a.skip(1));
        assert(b =~= seq![b[0]] + b.skip(1));
    }
}

/// Two texts that are encoded alike are the same text: encoding loses nothing.
pub proof fn law_encoding_is_injective(a: Seq<char>, b: Seq<char>)
    requires
        url_encoded(a) == url_encoded(b),
    ensures
        a == b,
{
    lemma_percent_encoded_injective(vstd::utf8::encode_utf8(a), vstd::utf8::encode_utf8(b));
    vstd::utf8::encode_utf8_decode_utf8(a);
    vstd::utf8::encode_utf8_decode_utf8(b);
}

} // verus!
