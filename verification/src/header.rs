//! Header values: which text may be carried in one, and the call that makes one.
use http::header::InvalidHeaderValue;
use http::HeaderValue;
use vstd::prelude::*;
use vstd::utf8::*;

verus! {

/// `http::HeaderValue`, a value of a header field; opaque here.
#[verifier::external_type_specification]
#[verifier::external_body]
pub struct ExHeaderValue(HeaderValue);

/// `http::header::InvalidHeaderValue`, the refusal of a text that is no
/// header value; it holds nothing.
#[verifier::external_type_specification]
#[verifier::external_body]
pub struct ExInvalidHeaderValue(InvalidHeaderValue);

/// The octets that a header value holds, in order: what
/// `http::HeaderValue::as_bytes` hands out.
pub uninterp spec fn header_value_octets(value: HeaderValue) -> Seq<u8>;

/// An octet that may stand in a header value: anything but a control
/// character, horizontal tab excepted.
pub open spec fn is_header_octet(b: u8) -> bool {
    (b >= 32 && b != 127) || b == 9
}

/// Every octet of `octets` may stand in a header value.
pub open spec fn is_header_octets(octets: Seq<u8>) -> bool {
    forall|i: int| 0 <= i < octets.len() ==> is_header_octet(#[trigger] octets[i])
}

/// A character whose UTF-8 encoding may stand in a header value: anything but
/// an ASCII control character, horizontal tab excepted.
pub open spec fn is_header_char(c: char) -> bool {
    (c as u32 >= 32 && c as u32 != 127) || c as u32 == 9
}

/// Every character of `text` may stand in a header value.
pub open spec fn is_header_text(text: Seq<char>) -> bool {
    forall|i: int| 0 <= i < text.len() ==> is_header_char(#[trigger] text[i])
}

/// Text of two parts is header text exactly when both parts are.
pub proof fn lemma_header_text_concat(a: Seq<char>, b: Seq<char>)
    ensures
        is_header_text(a + b) <==> is_header_text(a) && is_header_text(b),
{
    let ab = a + b;
    if is_header_text(ab) {
        assert forall|i: int| 0 <= i < a.len() implies is_header_char(#[trigger] a[i]) by {
            assert(ab[i] == a[i]);
        }
        assert forall|i: int| 0 <= i < b.len() implies is_header_char(#[trigger] b[i]) by {
            assert(ab[a.len() + i] == b[i]);
        }
    }
}

proof fn lemma_single_octet(c: u32)
    by (bit_vector)
    requires
        has_width_1_encoding(c),
    ensures
        leading_byte_width_1(c) as u32 == c,
{
}

proof fn lemma_high_octets(c: u32)
    by (bit_vector)
    ensures
        leading_byte_width_2(c) >= 0x80,
        leading_byte_width_3(c) >= 0x80,
        leading_byte_width_4(c) >= 0x80,
        last_continuation_byte(c) >= 0x80,
        second_last_continuation_byte(c) >= 0x80,
        third_last_continuation_byte(c) >= 0x80,
{
}

/// The UTF-8 encoding of one character consists of header octets exactly when
/// the character is a header character.
proof fn lemma_header_scalar(c: char)
    ensures
        is_header_octets(encode_scalar(c as u32)) <==> is_header_char(c),
{
    let s = c as u32;
    let enc = encode_scalar(s);
    lemma_high_octets(s);
    if has_width_1_encoding(s) {
        lemma_single_octet(s);
        assert(enc[0] as u32 == s);
    } else {
        assert(s >= 0x80);
    }
}

/// The UTF-8 encoding of a text consists of header octets exactly when the
/// text consists of header characters.
pub proof fn lemma_header_text_octets(text: Seq<char>)
    ensures
        is_header_octets(encode_utf8(text)) <==> is_header_text(text),
    decreases text.len(),
{
    if text.len() > 0 {
        let head = encode_scalar(text[0] as u32);
        let rest = text.drop_first();
        let tail = encode_utf8(rest);
        let all = encode_utf8(text);
        assert(all == head + tail);
        lemma_header_scalar(text[0]);
        lemma_header_text_octets(rest);
        if is_header_octets(all) {
            assert forall|i: int| 0 <= i < head.len() implies is_header_octet(#[trigger] head[i]) by {
                assert(all[i] == head[i]);
            }
            assert forall|i: int| 0 <= i < tail.len() implies is_header_octet(#[trigger] tail[i]) by {
                assert(all[head.len() + i] == tail[i]);
            }
            assert forall|i: int| 0 <= i < text.len() implies is_header_char(#[trigger] text[i]) by {
                if i > 0 {
                    assert(rest[i - 1] == text[i]);
                }
            }
        }
        if is_header_text(text) {
            assert forall|i: int| 0 <= i < rest.len() implies is_header_char(#[trigger] rest[i]) by {
                assert(rest[i] == text[i + 1]);
            }
            assert(is_header_octets(head));
            assert(is_header_octets(tail));
        }
    }
}

/// Makes a header value of `text` with `http::HeaderValue::from_str`.
///
/// That function walks the octets of `text` and refuses the text when one of
/// them is a control character other than horizontal tab; otherwise the value
/// it returns holds a copy of those octets.
#[verifier::external_body]
pub(crate) fn header_value_from_str(text: &str) -> (r: Result<HeaderValue, InvalidHeaderValue>)
    ensures
        r.is_ok() <==> is_header_octets(encode_utf8(text@)),
        r matches Ok(value) ==> header_value_octets(value) == encode_utf8(text@),
{
    HeaderValue::from_str(text)
}

} // verus!
