//! Codec of the transport messages.
//!
//! The transport carries the same tag-length-value wire format as the
//! signed payload: the verify-number request envelope (payload and detached
//! signature), the verify-number response, and the two send-code messages.
//! Unknown fields are skipped; a known field with the wrong wire type or an
//! unterminated field makes the message malformed.

use vstd::prelude::*;
use vstd::slice::slice_to_vec;
use vstd::utf8::{decode_utf8, encode_utf8, valid_utf8};
use crate::codec::{
    copy_range, lemma_concat_parts, lemma_subrange_of_prefix, spec_field_enc, spec_skip_field,
    write_field,
};
use crate::results::{spec_result_code, spec_result_from_code, spec_send_result_code, VerificationResult};
use crate::send_code::{SendResponseView, SendVerificationCodeRequest, SendVerificationCodeResponse};
use crate::verify_number::{RequestView, ResponseView, VerifyNumberRequest, VerifyNumberResponse};
use crate::wire::{
    lemma_varint_at_bounds, lemma_varint_encode_len, lemma_varint_roundtrip, read_varint,
    spec_varint_encode, spec_varint_u64_at, write_varint, MAX_VARINT_LEN,
};

verus! {

/// The request envelope denoted by `bytes` from index `i` on, over the
/// fields read so far: field 1 is the signed payload, field 2 the detached
/// signature.
pub open spec fn spec_decode_envelope_fields(bytes: Seq<u8>, i: int, acc: RequestView) -> Option<
    RequestView,
>
    decreases bytes.len() - i,
{
    if i == bytes.len() {
        Some(acc)
    } else if i < 0 || i > bytes.len() {
        None
    } else {
        match spec_varint_u64_at(bytes, i) {
            None => None,
            Some((key, j)) => {
                let field = key / 8;
                let wt = key % 8;
                if !(i < j <= bytes.len()) {
                    None
                } else if (field == 1 || field == 2) && wt == 2 {
                    match spec_varint_u64_at(bytes, j) {
                        None => None,
                        Some((len, k)) => if j < k && k + len <= bytes.len() {
                            let content = bytes.subrange(k, k + len);
                            spec_decode_envelope_fields(
                                bytes,
                                k + len,
                                if field == 1 {
                                    RequestView { data: content, ..acc }
                                } else {
                                    RequestView { signature: content, ..acc }
                                },
                            )
                        } else {
                            None
                        },
                    }
                } else if field <= 2 {
                    None
                } else {
                    match spec_skip_field(bytes, j, wt) {
                        None => None,
                        Some(k) => if i < k <= bytes.len() {
                            spec_decode_envelope_fields(bytes, k, acc)
                        } else {
                            None
                        },
                    }
                }
            },
        }
    }
}

/// The request envelope denoted by `bytes`, or `None` on malformed input.
pub open spec fn spec_decode_verify_request(bytes: Seq<u8>) -> Option<RequestView> {
    spec_decode_envelope_fields(
        bytes,
        0,
        RequestView { data: Seq::empty(), signature: Seq::empty() },
    )
}

/// Decodes a request envelope; mirrors `spec_decode_verify_request`.
pub fn decode_verify_number_request(bytes: &Vec<u8>) -> (r: Option<VerifyNumberRequest>)
    ensures
        match spec_decode_verify_request(bytes@) {
            Some(v) => r matches Some(req) && req@ == v,
            None => r is None,
        },
{
    let mut acc = VerifyNumberRequest { data: Vec::new(), signature: Vec::new() };
    let mut i: usize = 0;
    proof {
        assert(acc@.data =~= Seq::<u8>::empty());
        assert(acc@.signature =~= Seq::<u8>::empty());
    }
    loop
        invariant
            i <= bytes@.len(),
            spec_decode_envelope_fields(bytes@, i as int, acc@) == spec_decode_verify_request(
                bytes@,
            ),
        decreases bytes@.len() - i,
    {
        if i == bytes.len() {
            return Some(acc);
        }
        let (key, j) = match read_varint(bytes, i) {
            Some(p) => p,
            None => {
                return None;
            },
        };
        proof {
            lemma_varint_at_bounds(bytes@, i as int, MAX_VARINT_LEN as nat);
        }
        let field = key / 8;
        let wt = key % 8;
        if (field == 1 || field == 2) && wt == 2 {
            let (len, k) = match read_varint(bytes, j) {
                Some(p) => p,
                None => {
                    return None;
                },
            };
            proof {
                lemma_varint_at_bounds(bytes@, j as int, MAX_VARINT_LEN as nat);
            }
            if len > (bytes.len() - k) as u64 {
                return None;
            }
            let end = k + len as usize;
            let content = copy_range(bytes, k, end);
            if field == 1 {
                acc.data = content;
            } else {
                acc.signature = content;
            }
            i = end;
        } else if field <= 2 {
            return None;
        } else if wt == 0 {
            let (_, k) = match read_varint(bytes, j) {
                Some(p) => p,
                None => {
                    return None;
                },
            };
            proof {
                lemma_varint_at_bounds(bytes@, j as int, MAX_VARINT_LEN as nat);
            }
            i = k;
        } else if wt == 1 {
            if bytes.len() - j < 8 {
                return None;
            }
            i = j + 8;
        } else if wt == 2 {
            let (len, k) = match read_varint(bytes, j) {
                Some(p) => p,
                None => {
                    return None;
                },
            };
            proof {
                lemma_varint_at_bounds(bytes@, j as int, MAX_VARINT_LEN as nat);
            }
            if len > (bytes.len() - k) as u64 {
                return None;
            }
            i = k + len as usize;
        } else if wt == 5 {
            if bytes.len() - j < 4 {
                return None;
            }
            i = j + 4;
        } else {
            return None;
        }
    }
}

/// The canonical encoding of a request envelope.
pub open spec fn spec_encode_verify_request(r: RequestView) -> Seq<u8> {
    spec_field_enc(1, r.data) + spec_field_enc(2, r.signature)
}

/// Serializes a request envelope.
pub fn encode_verify_number_request(req: &VerifyNumberRequest) -> (r: Vec<u8>)
    ensures
        r@ == spec_encode_verify_request(req@),
{
    let mut out: Vec<u8> = Vec::new();
    write_field(&mut out, 1, &req.data);
    write_field(&mut out, 2, &req.signature);
    proof {
        assert(out@ =~= spec_encode_verify_request(req@));
    }
    out
}

/// The canonical encoding of a verify-number response: evidence data,
/// signature, and the result code as a varint field, defaults omitted.
pub open spec fn spec_encode_verify_response(r: ResponseView) -> Seq<u8> {
    spec_field_enc(1, r.data) + spec_field_enc(2, r.signature) + (if spec_result_code(r.result)
        == 0 {
        Seq::<u8>::empty()
    } else {
        seq![24u8] + spec_varint_encode(spec_result_code(r.result) as nat)
    })
}

/// Serializes a verify-number response.
pub fn encode_verify_number_response(resp: &VerifyNumberResponse) -> (r: Vec<u8>)
    ensures
        r@ == spec_encode_verify_response(resp@),
{
    let mut out: Vec<u8> = Vec::new();
    write_field(&mut out, 1, &resp.data);
    write_field(&mut out, 2, &resp.signature);
    let code = resp.result.code();
    if code != 0 {
        out.push(24);
        write_varint(&mut out, code);
    }
    proof {
        assert(out@ =~= spec_encode_verify_response(resp@));
    }
    out
}

/// Relies on `String::from_utf8`: it succeeds exactly on valid UTF-8, and
/// then returns the text those bytes encode.
#[verifier::external_body]
fn utf8_to_string(bytes: Vec<u8>) -> (r: Option<String>)
    ensures
        r is Some <==> valid_utf8(bytes@),
        r matches Some(s) ==> s@ == decode_utf8(bytes@),
{
    String::from_utf8(bytes).ok()
}

/// The mobile number carried by a send-code request message from index `i`
/// on: field 1 is the number as UTF-8 text.
pub open spec fn spec_decode_send_fields(bytes: Seq<u8>, i: int, acc: Seq<char>) -> Option<
    Seq<char>,
>
    decreases bytes.len() - i,
{
    if i == bytes.len() {
        Some(acc)
    } else if i < 0 || i > bytes.len() {
        None
    } else {
        match spec_varint_u64_at(bytes, i) {
            None => None,
            Some((key, j)) => {
                let field = key / 8;
                let wt = key % 8;
                if !(i < j <= bytes.len()) {
                    None
                } else if field == 1 && wt == 2 {
                    match spec_varint_u64_at(bytes, j) {
                        None => None,
                        Some((len, k)) => if j < k && k + len <= bytes.len() {
                            let content = bytes.subrange(k, k + len);
                            if valid_utf8(content) {
                                spec_decode_send_fields(bytes, k + len, decode_utf8(content))
                            } else {
                                None
                            }
                        } else {
                            None
                        },
                    }
                } else if field <= 1 {
                    None
                } else {
                    match spec_skip_field(bytes, j, wt) {
                        None => None,
                        Some(k) => if i < k <= bytes.len() {
                            spec_decode_send_fields(bytes, k, acc)
                        } else {
                            None
                        },
                    }
                }
            },
        }
    }
}

/// The mobile number a send-code request message denotes, or `None` on
/// malformed input.
pub open spec fn spec_decode_send_request(bytes: Seq<u8>) -> Option<Seq<char>> {
    spec_decode_send_fields(bytes, 0, Seq::empty())
}

/// Decodes a send-code request message; mirrors `spec_decode_send_request`.
pub fn decode_send_code_request(bytes: &Vec<u8>) -> (r: Option<SendVerificationCodeRequest>)
    ensures
        match spec_decode_send_request(bytes@) {
            Some(n) => r matches Some(req) && req.mobile_number@ == n,
            None => r is None,
        },
{
    let mut number = String::new();
    let mut i: usize = 0;
    loop
        invariant
            i <= bytes@.len(),
            spec_decode_send_fields(bytes@, i as int, number@) == spec_decode_send_request(bytes@),
        decreases bytes@.len() - i,
    {
        if i == bytes.len() {
            return Some(SendVerificationCodeRequest { mobile_number: number });
        }
        let (key, j) = match read_varint(bytes, i) {
            Some(p) => p,
            None => {
                return None;
            },
        };
        proof {
            lemma_varint_at_bounds(bytes@, i as int, MAX_VARINT_LEN as nat);
        }
        let field = key / 8;
        let wt = key % 8;
        if field == 1 && wt == 2 {
            let (len, k) = match read_varint(bytes, j) {
                Some(p) => p,
                None => {
                    return None;
                },
            };
            proof {
                lemma_varint_at_bounds(bytes@, j as int, MAX_VARINT_LEN as nat);
            }
            if len > (bytes.len() - k) as u64 {
                return None;
            }
            let end = k + len as usize;
            let content = copy_range(bytes, k, end);
            number = match utf8_to_string(content) {
                Some(text) => text,
                None => {
                    return None;
                },
            };
            i = end;
        } else if field <= 1 {
            return None;
        } else if wt == 0 {
            let (_, k) = match read_varint(bytes, j) {
                Some(p) => p,
                None => {
                    return None;
                },
            };
            proof {
                lemma_varint_at_bounds(bytes@, j as int, MAX_VARINT_LEN as nat);
            }
            i = k;
        } else if wt == 1 {
            if bytes.len() - j < 8 {
                return None;
            }
            i = j + 8;
        } else if wt == 2 {
            let (len, k) = match read_varint(bytes, j) {
                Some(p) => p,
                None => {
                    return None;
                },
            };
            proof {
                lemma_varint_at_bounds(bytes@, j as int, MAX_VARINT_LEN as nat);
            }
            if len > (bytes.len() - k) as u64 {
                return None;
            }
            i = k + len as usize;
        } else if wt == 5 {
            if bytes.len() - j < 4 {
                return None;
            }
            i = j + 4;
        } else {
            return None;
        }
    }
}

/// The canonical encoding of a send-code request message.
pub open spec fn spec_encode_send_request(number: Seq<char>) -> Seq<u8> {
    spec_field_enc(1, encode_utf8(number))
}

/// Serializes a send-code request message.
pub fn encode_send_code_request(req: &SendVerificationCodeRequest) -> (r: Vec<u8>)
    ensures
        r@ == spec_encode_send_request(req.mobile_number@),
{
    let number = slice_to_vec(req.mobile_number.as_str().as_bytes());
    let mut out: Vec<u8> = Vec::new();
    write_field(&mut out, 1, &number);
    proof {
        assert(out@ =~= spec_encode_send_request(req.mobile_number@));
    }
    out
}

/// The canonical encoding of a send-code response: provider session id, the
/// result code as a varint field, and the error message, defaults omitted.
pub open spec fn spec_encode_send_response(r: SendResponseView) -> Seq<u8> {
    spec_field_enc(1, encode_utf8(r.session_id)) + (if spec_send_result_code(r.result) == 0 {
        Seq::<u8>::empty()
    } else {
        seq![16u8] + spec_varint_encode(spec_send_result_code(r.result) as nat)
    }) + spec_field_enc(3, encode_utf8(r.error_message))
}

/// Serializes a send-code response.
pub fn encode_send_code_response(resp: &SendVerificationCodeResponse) -> (r: Vec<u8>)
    ensures
        r@ == spec_encode_send_response(resp@),
{
    let session_id = slice_to_vec(resp.session_id.as_str().as_bytes());
    let error_message = slice_to_vec(resp.error_message.as_str().as_bytes());
    let mut out: Vec<u8> = Vec::new();
    write_field(&mut out, 1, &session_id);
    let code = resp.result.code();
    if code != 0 {
        out.push(16);
        write_varint(&mut out, code);
    }
    write_field(&mut out, 3, &error_message);
    proof {
        assert(out@ =~= spec_encode_send_response(resp@));
    }
    out
}

/// Decoding a buffer that carries envelope field `field` at index `i` steps
/// past it and records its content.
proof fn lemma_envelope_step(
    bytes: Seq<u8>,
    i: int,
    field: u64,
    acc: RequestView,
    content: Seq<u8>,
)
    requires
        0 <= i,
        field == 1 || field == 2,
        0 < content.len() <= u64::MAX,
        i + spec_field_enc(field, content).len() <= bytes.len(),
        bytes.subrange(i, i + spec_field_enc(field, content).len() as int) == spec_field_enc(
            field,
            content,
        ),
    ensures
        spec_decode_envelope_fields(bytes, i, acc) == spec_decode_envelope_fields(
            bytes,
            i + spec_field_enc(field, content).len() as int,
            if field == 1 {
                RequestView { data: content, ..acc }
            } else {
                RequestView { signature: content, ..acc }
            },
        ),
{
    let lenc = spec_varint_encode(content.len());
    let seg = spec_field_enc(field, content);
    let key = (field * 8 + 2) as u8;
    lemma_varint_encode_len(content.len());
    assert(seg == seq![key] + lenc + content);
    assert(bytes[i] == seg[0]) by {
        assert(bytes.subrange(i, i + seg.len() as int)[0] == seg[0]);
    }
    assert(spec_varint_u64_at(bytes, i) == Some((key as u64, i + 1)));
    assert((key as u64) / 8 == field);
    assert((key as u64) % 8 == 2);
    assert(bytes.subrange(i + 1, i + 1 + lenc.len() as int) =~= lenc) by {
        assert forall|m: int| 0 <= m < lenc.len() implies bytes[i + 1 + m] == lenc[m] by {
            assert(bytes.subrange(i, i + seg.len() as int)[1 + m] == seg[1 + m]);
            assert(seg[1 + m] == (seq![key] + lenc)[1 + m]);
        }
    }
    lemma_varint_roundtrip(bytes, i + 1, content.len(), MAX_VARINT_LEN as nat);
    let k = i + 1 + lenc.len() as int;
    assert(bytes.subrange(k, k + content.len() as int) =~= content) by {
        assert forall|m: int| 0 <= m < content.len() implies bytes[k + m] == content[m] by {
            assert(bytes.subrange(i, i + seg.len() as int)[1 + lenc.len() + m] == seg[1
                + lenc.len() + m]);
        }
    }
}

/// Round trip: decoding the canonical encoding of a request envelope yields
/// that envelope again.
pub proof fn lemma_envelope_codec_roundtrip(r: RequestView)
    requires
        r.data.len() <= u64::MAX,
        r.signature.len() <= u64::MAX,
    ensures
        spec_decode_verify_request(spec_encode_verify_request(r)) == Some(r),
{
    let bytes = spec_encode_verify_request(r);
    let seg1 = spec_field_enc(1, r.data);
    let seg2 = spec_field_enc(2, r.signature);
    let p1 = seg1.len() as int;
    let p2 = p1 + seg2.len() as int;
    let acc0 = RequestView { data: Seq::empty(), signature: Seq::empty() };
    let acc1 = if r.data.len() == 0 {
        acc0
    } else {
        RequestView { data: r.data, ..acc0 }
    };
    let acc2 = if r.signature.len() == 0 {
        acc1
    } else {
        RequestView { signature: r.signature, ..acc1 }
    };
    assert(bytes.subrange(0, p1) =~= seg1);
    assert(bytes.subrange(p1, p2) =~= seg2);
    if r.data.len() != 0 {
        lemma_envelope_step(bytes, 0, 1, acc0, r.data);
    }
    assert(spec_decode_envelope_fields(bytes, 0, acc0) == spec_decode_envelope_fields(
        bytes,
        p1,
        acc1,
    ));
    if r.signature.len() != 0 {
        lemma_envelope_step(bytes, p1, 2, acc1, r.signature);
    }
    assert(spec_decode_envelope_fields(bytes, p1, acc1) == spec_decode_envelope_fields(
        bytes,
        p2,
        acc2,
    ));
    assert(acc2.data == r.data) by {
        if r.data.len() == 0 {
            assert(acc2.data =~= r.data);
        }
    }
    assert(acc2.signature == r.signature) by {
        if r.signature.len() == 0 {
            assert(acc2.signature =~= r.signature);
        }
    }
}

/// Round trip: decoding the canonical encoding of a send-code request
/// yields the mobile number it was built from.
pub proof fn lemma_send_request_codec_roundtrip(number: Seq<char>)
    requires
        encode_utf8(number).len() <= u64::MAX,
    ensures
        spec_decode_send_request(spec_encode_send_request(number)) == Some(number),
{
    let content = encode_utf8(number);
    let bytes = spec_encode_send_request(number);
    vstd::utf8::encode_utf8_valid_utf8(number);
    vstd::utf8::encode_utf8_decode_utf8(number);
    if content.len() == 0 {
        assert(content =~= Seq::<u8>::empty());
        assert(number =~= decode_utf8(content));
        assert(number =~= Seq::<char>::empty());
    } else {
        let lenc = spec_varint_encode(content.len());
        let seg = spec_field_enc(1, content);
        lemma_varint_encode_len(content.len());
        assert(bytes == seg);
        assert(bytes[0] == 10);
        assert(spec_varint_u64_at(bytes, 0) == Some((10u64, 1int)));
        assert(bytes.subrange(1, 1 + lenc.len() as int) =~= lenc) by {
            assert forall|m: int| 0 <= m < lenc.len() implies bytes[1 + m] == lenc[m] by {
                assert(seg[1 + m] == (seq![10u8] + lenc)[1 + m]);
            }
        }
        lemma_varint_roundtrip(bytes, 1, content.len(), MAX_VARINT_LEN as nat);
        let k = 1 + lenc.len() as int;
        assert(bytes.subrange(k, k + content.len() as int) =~= content);
        assert(valid_utf8(content));
        assert(k + content.len() as int == bytes.len());
        assert(spec_decode_send_fields(bytes, k + content.len() as int, decode_utf8(content))
            == Some(decode_utf8(content)));
        assert(spec_decode_send_fields(bytes, 0, Seq::<char>::empty()) == Some(
            decode_utf8(content),
        ));
        assert(decode_utf8(content) == number);
    }
}


/// The verify-number response denoted by `bytes` from index `i` on, over
/// the fields read so far: field 1 is the evidence data, field 2 the
/// verifier's signature, field 3 the result code.
pub open spec fn spec_decode_response_fields(bytes: Seq<u8>, i: int, acc: ResponseView) -> Option<
    ResponseView,
>
    decreases bytes.len() - i,
{
    if i == bytes.len() {
        Some(acc)
    } else if i < 0 || i > bytes.len() {
        None
    } else {
        match spec_varint_u64_at(bytes, i) {
            None => None,
            Some((key, j)) => {
                let field = key / 8;
                let wt = key % 8;
                if !(i < j <= bytes.len()) {
                    None
                } else if (field == 1 || field == 2) && wt == 2 {
                    match spec_varint_u64_at(bytes, j) {
                        None => None,
                        Some((len, k)) => if j < k && k + len <= bytes.len() {
                            let content = bytes.subrange(k, k + len);
                            spec_decode_response_fields(
                                bytes,
                                k + len,
                                if field == 1 {
                                    ResponseView { data: content, ..acc }
                                } else {
                                    ResponseView { signature: content, ..acc }
                                },
                            )
                        } else {
                            None
                        },
                    }
                } else if field == 3 && wt == 0 {
                    match spec_varint_u64_at(bytes, j) {
                        None => None,
                        Some((v, k)) => if j < k <= bytes.len() {
                            match spec_result_from_code(v) {
                                None => None,
                                Some(result) => spec_decode_response_fields(
                                    bytes,
                                    k,
                                    ResponseView { result, ..acc },
                                ),
                            }
                        } else {
                            None
                        },
                    }
                } else if field <= 3 {
                    None
                } else {
                    match spec_skip_field(bytes, j, wt) {
                        None => None,
                        Some(k) => if i < k <= bytes.len() {
                            spec_decode_response_fields(bytes, k, acc)
                        } else {
                            None
                        },
                    }
                }
            },
        }
    }
}

/// The verify-number response denoted by `bytes`, or `None` on malformed
/// input or a result code this library does not know.
pub open spec fn spec_decode_verify_response(bytes: Seq<u8>) -> Option<ResponseView> {
    spec_decode_response_fields(
        bytes,
        0,
        ResponseView {
            data: Seq::empty(),
            signature: Seq::empty(),
            result: VerificationResult::Unspecified,
        },
    )
}

/// Decodes a verify-number response; mirrors `spec_decode_verify_response`.
pub fn decode_verify_number_response(bytes: &Vec<u8>) -> (r: Option<VerifyNumberResponse>)
    ensures
        match spec_decode_verify_response(bytes@) {
            Some(v) => r matches Some(resp) && resp@ == v,
            None => r is None,
        },
{
    let mut acc = VerifyNumberResponse {
        data: Vec::new(),
        signature: Vec::new(),
        result: VerificationResult::Unspecified,
    };
    let mut i: usize = 0;
    proof {
        assert(acc@.data =~= Seq::<u8>::empty());
        assert(acc@.signature =~= Seq::<u8>::empty());
    }
    loop
        invariant
            i <= bytes@.len(),
            spec_decode_response_fields(bytes@, i as int, acc@) == spec_decode_verify_response(
                bytes@,
            ),
        decreases bytes@.len() - i,
    {
        if i == bytes.len() {
            return Some(acc);
        }
        let (key, j) = match read_varint(bytes, i) {
            Some(p) => p,
            None => {
                return None;
            },
        };
        proof {
            lemma_varint_at_bounds(bytes@, i as int, MAX_VARINT_LEN as nat);
        }
        let field = key / 8;
        let wt = key % 8;
        if (field == 1 || field == 2) && wt == 2 {
            let (len, k) = match read_varint(bytes, j) {
                Some(p) => p,
                None => {
                    return None;
                },
            };
            proof {
                lemma_varint_at_bounds(bytes@, j as int, MAX_VARINT_LEN as nat);
            }
            if len > (bytes.len() - k) as u64 {
                return None;
            }
            let end = k + len as usize;
            let content = copy_range(bytes, k, end);
            if field == 1 {
                acc.data = content;
            } else {
                acc.signature = content;
            }
            i = end;
        } else if field == 3 && wt == 0 {
            let (v, k) = match read_varint(bytes, j) {
                Some(p) => p,
                None => {
                    return None;
                },
            };
            proof {
                lemma_varint_at_bounds(bytes@, j as int, MAX_VARINT_LEN as nat);
            }
            acc.result = match VerificationResult::from_code(v) {
                Some(result) => result,
                None => {
                    return None;
                },
            };
            i = k;
        } else if field <= 3 {
            return None;
        } else if wt == 0 {
            let (_, k) = match read_varint(bytes, j) {
                Some(p) => p,
                None => {
                    return None;
                },
            };
            proof {
                lemma_varint_at_bounds(bytes@, j as int, MAX_VARINT_LEN as nat);
            }
            i = k;
        } else if wt == 1 {
            if bytes.len() - j < 8 {
                return None;
            }
            i = j + 8;
        } else if wt == 2 {
            let (len, k) = match read_varint(bytes, j) {
                Some(p) => p,
                None => {
                    return None;
                },
            };
            proof {
                lemma_varint_at_bounds(bytes@, j as int, MAX_VARINT_LEN as nat);
            }
            if len > (bytes.len() - k) as u64 {
                return None;
            }
            i = k + len as usize;
        } else if wt == 5 {
            if bytes.len() - j < 4 {
                return None;
            }
            i = j + 4;
        } else {
            return None;
        }
    }
}

/// Decoding a buffer that carries response field 1 or 2 at index `i` steps
/// past it and records its content.
proof fn lemma_response_step_bytes(
    bytes: Seq<u8>,
    i: int,
    field: u64,
    acc: ResponseView,
    content: Seq<u8>,
)
    requires
        0 <= i,
        field == 1 || field == 2,
        0 < content.len() <= u64::MAX,
        i + spec_field_enc(field, content).len() <= bytes.len(),
        bytes.subrange(i, i + spec_field_enc(field, content).len() as int) == spec_field_enc(
            field,
            content,
        ),
    ensures
        spec_decode_response_fields(bytes, i, acc) == spec_decode_response_fields(
            bytes,
            i + spec_field_enc(field, content).len() as int,
            if field == 1 {
                ResponseView { data: content, ..acc }
            } else {
                ResponseView { signature: content, ..acc }
            },
        ),
{
    let lenc = spec_varint_encode(content.len());
    let seg = spec_field_enc(field, content);
    let key = (field * 8 + 2) as u8;
    lemma_varint_encode_len(content.len());
    assert(seg == seq![key] + lenc + content);
    assert(bytes[i] == seg[0]) by {
        assert(bytes.subrange(i, i + seg.len() as int)[0] == seg[0]);
    }
    assert(spec_varint_u64_at(bytes, i) == Some((key as u64, i + 1)));
    assert(bytes.subrange(i + 1, i + 1 + lenc.len() as int) =~= lenc) by {
        assert forall|m: int| 0 <= m < lenc.len() implies bytes[i + 1 + m] == lenc[m] by {
            assert(bytes.subrange(i, i + seg.len() as int)[1 + m] == seg[1 + m]);
            assert(seg[1 + m] == (seq![key] + lenc)[1 + m]);
        }
    }
    lemma_varint_roundtrip(bytes, i + 1, content.len(), MAX_VARINT_LEN as nat);
    let k = i + 1 + lenc.len() as int;
    assert(bytes.subrange(k, k + content.len() as int) =~= content) by {
        assert forall|m: int| 0 <= m < content.len() implies bytes[k + m] == content[m] by {
            assert(bytes.subrange(i, i + seg.len() as int)[1 + lenc.len() + m] == seg[1
                + lenc.len() + m]);
        }
    }
}

/// Decoding a buffer that carries the result field at index `i` steps past
/// it and records the result.
proof fn lemma_response_step_result(
    bytes: Seq<u8>,
    i: int,
    acc: ResponseView,
    result: VerificationResult,
)
    requires
        0 <= i,
        i + 1 + spec_varint_encode(spec_result_code(result) as nat).len() <= bytes.len(),
        bytes.subrange(
            i,
            i + 1 + spec_varint_encode(spec_result_code(result) as nat).len() as int,
        ) == seq![24u8] + spec_varint_encode(spec_result_code(result) as nat),
    ensures
        spec_decode_response_fields(bytes, i, acc) == spec_decode_response_fields(
            bytes,
            i + 1 + spec_varint_encode(spec_result_code(result) as nat).len() as int,
            ResponseView { result, ..acc },
        ),
{
    let enc = spec_varint_encode(spec_result_code(result) as nat);
    let seg = seq![24u8] + enc;
    lemma_varint_encode_len(spec_result_code(result) as nat);
    assert(bytes[i] == seg[0]) by {
        assert(bytes.subrange(i, i + seg.len() as int)[0] == seg[0]);
    }
    assert(spec_varint_u64_at(bytes, i) == Some((24u64, i + 1)));
    assert(bytes.subrange(i + 1, i + 1 + enc.len() as int) =~= enc) by {
        assert forall|m: int| 0 <= m < enc.len() implies bytes[i + 1 + m] == enc[m] by {
            assert(bytes.subrange(i, i + seg.len() as int)[1 + m] == seg[1 + m]);
        }
    }
    lemma_varint_roundtrip(bytes, i + 1, spec_result_code(result) as nat, MAX_VARINT_LEN as nat);
    assert(spec_result_from_code(spec_result_code(result)) == Some(result));
}

/// Round trip: decoding the canonical encoding of a verify-number response
/// yields that response again.
pub proof fn lemma_response_codec_roundtrip(r: ResponseView)
    requires
        r.data.len() <= u64::MAX,
        r.signature.len() <= u64::MAX,
    ensures
        spec_decode_verify_response(spec_encode_verify_response(r)) == Some(r),
{
    let bytes = spec_encode_verify_response(r);
    let seg1 = spec_field_enc(1, r.data);
    let seg2 = spec_field_enc(2, r.signature);
    let seg3 = if spec_result_code(r.result) == 0 {
        Seq::<u8>::empty()
    } else {
        seq![24u8] + spec_varint_encode(spec_result_code(r.result) as nat)
    };
    let p1 = seg1.len() as int;
    let p2 = p1 + seg2.len() as int;
    let p3 = p2 + seg3.len() as int;
    let b2 = seg1 + seg2;
    assert(bytes == b2 + seg3);
    let acc0 = ResponseView {
        data: Seq::empty(),
        signature: Seq::empty(),
        result: VerificationResult::Unspecified,
    };
    let acc1 = if r.data.len() == 0 {
        acc0
    } else {
        ResponseView { data: r.data, ..acc0 }
    };
    let acc2 = if r.signature.len() == 0 {
        acc1
    } else {
        ResponseView { signature: r.signature, ..acc1 }
    };
    let acc3 = if spec_result_code(r.result) == 0 {
        acc2
    } else {
        ResponseView { result: r.result, ..acc2 }
    };
    lemma_concat_parts(b2, seg3);
    lemma_subrange_of_prefix(bytes, b2, 0, p1);
    lemma_subrange_of_prefix(bytes, b2, p1, p2);
    lemma_concat_parts(seg1, seg2);
    assert(bytes.subrange(0, p1) == seg1) by {
        assert(b2.subrange(0, p1) == seg1);
    }
    assert(bytes.subrange(p1, p2) == seg2) by {
        assert(b2.subrange(p1, p2) == seg2);
    }
    assert(bytes.subrange(p2, p3) == seg3);
    if r.data.len() != 0 {
        lemma_response_step_bytes(bytes, 0, 1, acc0, r.data);
    }
    assert(spec_decode_response_fields(bytes, 0, acc0) == spec_decode_response_fields(
        bytes,
        p1,
        acc1,
    ));
    if r.signature.len() != 0 {
        lemma_response_step_bytes(bytes, p1, 2, acc1, r.signature);
    }
    assert(spec_decode_response_fields(bytes, p1, acc1) == spec_decode_response_fields(
        bytes,
        p2,
        acc2,
    ));
    if spec_result_code(r.result) != 0 {
        lemma_response_step_result(bytes, p2, acc2, r.result);
    }
    assert(spec_decode_response_fields(bytes, p2, acc2) == spec_decode_response_fields(
        bytes,
        p3,
        acc3,
    ));
    assert(acc3.data == r.data) by {
        if r.data.len() == 0 {
            assert(acc3.data =~= r.data);
        }
    }
    assert(acc3.signature == r.signature) by {
        if r.signature.len() == 0 {
            assert(acc3.signature =~= r.signature);
        }
    }
    assert(acc3.result == r.result);
}

} // verus!
