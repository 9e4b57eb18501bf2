//! Codec of the signed request payload.
//!
//! The payload is a tag-length-value message: each field is preceded by a
//! key varint holding the field number and a wire type. Field 1 is the
//! varint timestamp; fields 2 to 7 are length-delimited byte fields, all of
//! which but the bypass token must hold valid UTF-8. Unknown fields are
//! skipped; a known field with the wrong wire type, an unterminated field,
//! or malformed text makes the whole payload malformed.

use vstd::prelude::*;
use vstd::utf8::valid_utf8;
use crate::wire::{
    spec_varint_u64_at, spec_varint_encode, read_varint, write_varint, lemma_varint_at_bounds,
    lemma_varint_encode_len, lemma_varint_roundtrip, MAX_VARINT_LEN,
};

verus! {

/// The decoded signed request payload.
///
/// `account_id`, `phone_number`, `requested_user_name`, `verification_code`
/// and `verification_sid` hold the UTF-8 bytes of the corresponding text
/// fields; `bypass_token` is an opaque byte field.
pub struct VerifyNumberRequestData {
    pub timestamp: u64,
    pub account_id: Vec<u8>,
    pub phone_number: Vec<u8>,
    pub requested_user_name: Vec<u8>,
    pub bypass_token: Vec<u8>,
    pub verification_code: Vec<u8>,
    pub verification_sid: Vec<u8>,
}

/// Mathematical image of `VerifyNumberRequestData`.
pub struct RequestDataView {
    pub timestamp: u64,
    pub account_id: Seq<u8>,
    pub phone_number: Seq<u8>,
    pub requested_user_name: Seq<u8>,
    pub bypass_token: Seq<u8>,
    pub verification_code: Seq<u8>,
    pub verification_sid: Seq<u8>,
}

impl View for VerifyNumberRequestData {
    type V = RequestDataView;

    open spec fn view(&self) -> RequestDataView {
        RequestDataView {
            timestamp: self.timestamp,
            account_id: self.account_id@,
            phone_number: self.phone_number@,
            requested_user_name: self.requested_user_name@,
            bypass_token: self.bypass_token@,
            verification_code: self.verification_code@,
            verification_sid: self.verification_sid@,
        }
    }
}

/// The payload with every field at its default value.
pub open spec fn spec_default_request_data() -> RequestDataView {
    RequestDataView {
        timestamp: 0,
        account_id: Seq::empty(),
        phone_number: Seq::empty(),
        requested_user_name: Seq::empty(),
        bypass_token: Seq::empty(),
        verification_code: Seq::empty(),
        verification_sid: Seq::empty(),
    }
}

/// `d` with length-delimited field number `field` replaced by `content`.
pub open spec fn spec_set_field(d: RequestDataView, field: u64, content: Seq<u8>) -> RequestDataView {
    if field == 2 {
        RequestDataView { account_id: content, ..d }
    } else if field == 3 {
        RequestDataView { phone_number: content, ..d }
    } else if field == 4 {
        RequestDataView { requested_user_name: content, ..d }
    } else if field == 5 {
        RequestDataView { bypass_token: content, ..d }
    } else if field == 6 {
        RequestDataView { verification_code: content, ..d }
    } else {
        RequestDataView { verification_sid: content, ..d }
    }
}

/// Whether a length-delimited field must hold valid UTF-8.
pub open spec fn spec_field_is_text(field: u64) -> bool {
    field != 5
}

/// Index just past an unknown field of wire type `wt` whose value starts at
/// `j`, or `None` if the field is not intact.
pub open spec fn spec_skip_field(bytes: Seq<u8>, j: int, wt: u64) -> Option<int> {
    if wt == 0 {
        match spec_varint_u64_at(bytes, j) {
            None => None,
            Some((_, k)) => Some(k),
        }
    } else if wt == 1 {
        if j + 8 <= bytes.len() {
            Some(j + 8)
        } else {
            None
        }
    } else if wt == 2 {
        match spec_varint_u64_at(bytes, j) {
            None => None,
            Some((len, k)) => if k + len <= bytes.len() {
                Some(k + len)
            } else {
                None
            },
        }
    } else if wt == 5 {
        if j + 4 <= bytes.len() {
            Some(j + 4)
        } else {
            None
        }
    } else {
        None
    }
}

/// The payload denoted by `bytes` from index `i` on, over the fields read so
/// far in `acc`. A later occurrence of a field replaces an earlier one.
pub open spec fn spec_decode_fields(bytes: Seq<u8>, i: int, acc: RequestDataView) -> Option<
    RequestDataView,
>
    decreases bytes.len() - i,
{
    if i == bytes.len() {
        Some(acc)
    } else if i < 0 || i > bytes.len() {
        None
    } else {
        match spec_varint_u64_at(bytes, i) {
            None => None,
            Some((key, j)) => {
                let field = key / 8;
                let wt = key % 8;
                if !(i < j <= bytes.len()) {
                    None
                } else if field == 1 && wt == 0 {
                    match spec_varint_u64_at(bytes, j) {
                        None => None,
                        Some((v, k)) => if j < k <= bytes.len() {
                            spec_decode_fields(
                                bytes,
                                k,
                                RequestDataView { timestamp: v, ..acc },
                            )
                        } else {
                            None
                        },
                    }
                } else if 2 <= field <= 7 && wt == 2 {
                    match spec_varint_u64_at(bytes, j) {
                        None => None,
                        Some((len, k)) => if j < k && k + len <= bytes.len() {
                            let content = bytes.subrange(k, k + len);
                            if spec_field_is_text(field) && !valid_utf8(content) {
                                None
                            } else {
                                spec_decode_fields(bytes, k + len, spec_set_field(acc, field, content))
                            }
                        } else {
                            None
                        },
                    }
                } else if field <= 7 {
                    None
                } else {
                    match spec_skip_field(bytes, j, wt) {
                        None => None,
                        Some(k) => if i < k <= bytes.len() {
                            spec_decode_fields(bytes, k, acc)
                        } else {
                            None
                        },
                    }
                }
            },
        }
    }
}

/// The payload denoted by `bytes`, or `None` on malformed input.
pub open spec fn spec_decode_request_data(bytes: Seq<u8>) -> Option<RequestDataView> {
    spec_decode_fields(bytes, 0, spec_default_request_data())
}

/// All byte fields of `d` are at most `n` long.
pub open spec fn spec_fields_bounded(d: RequestDataView, n: int) -> bool {
    &&& d.account_id.len() <= n
    &&& d.phone_number.len() <= n
    &&& d.requested_user_name.len() <= n
    &&& d.bypass_token.len() <= n
    &&& d.verification_code.len() <= n
    &&& d.verification_sid.len() <= n
}

/// Every byte field of a decoded payload is a slice of the input, so it is
/// no longer than the input itself.
proof fn lemma_decode_fields_bounded(bytes: Seq<u8>, i: int, acc: RequestDataView)
    requires
        spec_fields_bounded(acc, bytes.len() as int),
    ensures
        spec_decode_fields(bytes, i, acc) matches Some(d) ==> spec_fields_bounded(
            d,
            bytes.len() as int,
        ),
    decreases bytes.len() - i,
{
    if i == bytes.len() {
    } else if i < 0 || i > bytes.len() {
    } else {
        match spec_varint_u64_at(bytes, i) {
            None => {},
            Some((key, j)) => {
                let field = key / 8;
                let wt = key % 8;
                if !(i < j <= bytes.len()) {
                } else if field == 1 && wt == 0 {
                    match spec_varint_u64_at(bytes, j) {
                        None => {},
                        Some((v, k)) => {
                            if j < k <= bytes.len() {
                                lemma_decode_fields_bounded(
                                    bytes,
                                    k,
                                    RequestDataView { timestamp: v, ..acc },
                                );
                            }
                        },
                    }
                } else if 2 <= field <= 7 && wt == 2 {
                    match spec_varint_u64_at(bytes, j) {
                        None => {},
                        Some((len, k)) => {
                            if j < k && k + len <= bytes.len() {
                                let content = bytes.subrange(k, k + len);
                                if spec_field_is_text(field) && !valid_utf8(content) {
                                } else {
                                    lemma_decode_fields_bounded(
                                        bytes,
                                        k + len,
                                        spec_set_field(acc, field, content),
                                    );
                                }
                            }
                        },
                    }
                } else if field <= 7 {
                } else {
                    match spec_skip_field(bytes, j, wt) {
                        None => {},
                        Some(k) => {
                            if i < k <= bytes.len() {
                                lemma_decode_fields_bounded(bytes, k, acc);
                            }
                        },
                    }
                }
            },
        }
    }
}

/// Every byte field of a decoded payload is at most as long as the input.
pub proof fn lemma_decoded_request_bounded(bytes: Seq<u8>)
    ensures
        spec_decode_request_data(bytes) matches Some(d) ==> spec_fields_bounded(
            d,
            bytes.len() as int,
        ),
{
    lemma_decode_fields_bounded(bytes, 0, spec_default_request_data());
}

/// Relies on `str::from_utf8`: it succeeds exactly on valid UTF-8.
#[verifier::external_body]
fn utf8_check(bytes: &Vec<u8>) -> (r: bool)
    ensures
        r == valid_utf8(bytes@),
{
    core::str::from_utf8(bytes.as_slice()).is_ok()
}

/// The bytes of `bytes` from `start` (inclusive) to `end` (exclusive), as a
/// fresh vector.
pub fn copy_range(bytes: &Vec<u8>, start: usize, end: usize) -> (r: Vec<u8>)
    requires
        start <= end <= bytes@.len(),
    ensures
        r@ == bytes@.subrange(start as int, end as int),
{
    let mut out: Vec<u8> = Vec::new();
    let mut i: usize = start;
    while i < end
        invariant
            start <= i <= end <= bytes@.len(),
            out@ == bytes@.subrange(start as int, i as int),
        decreases end - i,
    {
        out.push(bytes[i]);
        i = i + 1;
        proof {
            assert(out@ =~= bytes@.subrange(start as int, i as int));
        }
    }
    out
}

/// Decodes the signed request payload; mirrors `spec_decode_request_data`
/// exactly, returning `None` on every malformed input.
pub fn decode_request_data(bytes: &Vec<u8>) -> (r: Option<VerifyNumberRequestData>)
    ensures
        match spec_decode_request_data(bytes@) {
            Some(d) => r matches Some(v) && v@ == d,
            None => r is None,
        },
{
    let mut acc = VerifyNumberRequestData {
        timestamp: 0,
        account_id: Vec::new(),
        phone_number: Vec::new(),
        requested_user_name: Vec::new(),
        bypass_token: Vec::new(),
        verification_code: Vec::new(),
        verification_sid: Vec::new(),
    };
    let mut i: usize = 0;
    proof {
        assert(acc@.account_id =~= spec_default_request_data().account_id);
        assert(acc@.phone_number =~= spec_default_request_data().phone_number);
        assert(acc@.requested_user_name =~= spec_default_request_data().requested_user_name);
        assert(acc@.bypass_token =~= spec_default_request_data().bypass_token);
        assert(acc@.verification_code =~= spec_default_request_data().verification_code);
        assert(acc@.verification_sid =~= spec_default_request_data().verification_sid);
        assert(acc@ == spec_default_request_data());
    }
    loop
        invariant
            i <= bytes@.len(),
            spec_decode_fields(bytes@, i as int, acc@) == spec_decode_request_data(bytes@),
        decreases bytes@.len() - i,
    {
        if i == bytes.len() {
            return Some(acc);
        }
        let (key, j) = match read_varint(bytes, i) {
            Some(p) => p,
            None => {
                return None;
            },
        };
        proof {
            lemma_varint_at_bounds(bytes@, i as int, MAX_VARINT_LEN as nat);
        }
        let field = key / 8;
        let wt = key % 8;
        if field == 1 && wt == 0 {
            let (v, k) = match read_varint(bytes, j) {
                Some(p) => p,
                None => {
                    return None;
                },
            };
            proof {
                lemma_varint_at_bounds(bytes@, j as int, MAX_VARINT_LEN as nat);
            }
            acc.timestamp = v;
            i = k;
        } else if field >= 2 && field <= 7 && wt == 2 {
            let (len, k) = match read_varint(bytes, j) {
                Some(p) => p,
                None => {
                    return None;
                },
            };
            proof {
                lemma_varint_at_bounds(bytes@, j as int, MAX_VARINT_LEN as nat);
            }
            if len > (bytes.len() - k) as u64 {
                return None;
            }
            let end = k + len as usize;
            let content = copy_range(bytes, k, end);
            if field != 5 && !utf8_check(&content) {
                return None;
            }
            if field == 2 {
                acc.account_id = content;
            } else if field == 3 {
                acc.phone_number = content;
            } else if field == 4 {
                acc.requested_user_name = content;
            } else if field == 5 {
                acc.bypass_token = content;
            } else if field == 6 {
                acc.verification_code = content;
            } else {
                acc.verification_sid = content;
            }
            i = end;
        } else if field <= 7 {
            return None;
        } else if wt == 0 {
            let (_, k) = match read_varint(bytes, j) {
                Some(p) => p,
                None => {
                    return None;
                },
            };
            proof {
                lemma_varint_at_bounds(bytes@, j as int, MAX_VARINT_LEN as nat);
            }
            i = k;
        } else if wt == 1 {
            if bytes.len() - j < 8 {
                return None;
            }
            i = j + 8;
        } else if wt == 2 {
            let (len, k) = match read_varint(bytes, j) {
                Some(p) => p,
                None => {
                    return None;
                },
            };
            proof {
                lemma_varint_at_bounds(bytes@, j as int, MAX_VARINT_LEN as nat);
            }
            if len > (bytes.len() - k) as u64 {
                return None;
            }
            i = k + len as usize;
        } else if wt == 5 {
            if bytes.len() - j < 4 {
                return None;
            }
            i = j + 4;
        } else {
            return None;
        }
    }
}

/// Canonical encoding of one length-delimited field: key, length varint,
/// content; omitted entirely when the content is empty.
pub open spec fn spec_field_enc(field: u64, content: Seq<u8>) -> Seq<u8> {
    if content.len() == 0 {
        Seq::empty()
    } else {
        seq![(field * 8 + 2) as u8] + spec_varint_encode(content.len()) + content
    }
}

/// The canonical encoding of a payload: fields in tag order, fields at their
/// default value omitted. Equal payloads always serialize to the same bytes.
pub open spec fn spec_encode_request_data(d: RequestDataView) -> Seq<u8> {
    (if d.timestamp == 0 {
        Seq::<u8>::empty()
    } else {
        seq![8u8] + spec_varint_encode(d.timestamp as nat)
    }) + spec_field_enc(2, d.account_id) + spec_field_enc(3, d.phone_number) + spec_field_enc(
        4,
        d.requested_user_name,
    ) + spec_field_enc(5, d.bypass_token) + spec_field_enc(6, d.verification_code) + spec_field_enc(
        7,
        d.verification_sid,
    )
}

/// A payload the canonical encoding is faithful for: text fields hold valid
/// UTF-8 (as every decoded payload does).
pub open spec fn spec_request_data_encodable(d: RequestDataView) -> bool {
    &&& valid_utf8(d.account_id)
    &&& valid_utf8(d.phone_number)
    &&& valid_utf8(d.requested_user_name)
    &&& valid_utf8(d.verification_code)
    &&& valid_utf8(d.verification_sid)
    &&& d.account_id.len() <= u64::MAX
    &&& d.phone_number.len() <= u64::MAX
    &&& d.requested_user_name.len() <= u64::MAX
    &&& d.bypass_token.len() <= u64::MAX
    &&& d.verification_code.len() <= u64::MAX
    &&& d.verification_sid.len() <= u64::MAX
}

/// Appends the canonical encoding of one length-delimited field to `out`.
pub fn write_field(out: &mut Vec<u8>, field: u64, content: &Vec<u8>)
    requires
        1 <= field <= 15,
    ensures
        final(out)@ == old(out)@ + spec_field_enc(field, content@),
{
    if content.len() > 0 {
        let ghost mid0 = out@;
        out.push((field * 8 + 2) as u8);
        write_varint(out, content.len() as u64);
        let ghost mid = out@;
        let mut i: usize = 0;
        while i < content.len()
            invariant
                i <= content@.len(),
                out@ == mid + content@.subrange(0, i as int),
            decreases content@.len() - i,
        {
            out.push(content[i]);
            i = i + 1;
            proof {
                assert(out@ =~= mid + content@.subrange(0, i as int));
            }
        }
        proof {
            assert(content@.subrange(0, content@.len() as int) =~= content@);
            assert(out@ =~= old(out)@ + spec_field_enc(field, content@));
        }
    } else {
        proof {
            assert(out@ =~= old(out)@ + spec_field_enc(field, content@));
        }
    }
}

/// Serializes a payload into its canonical encoding.
pub fn encode_request_data(d: &VerifyNumberRequestData) -> (r: Vec<u8>)
    ensures
        r@ == spec_encode_request_data(d@),
{
    let mut out: Vec<u8> = Vec::new();
    if d.timestamp != 0 {
        out.push(8);
        write_varint(&mut out, d.timestamp);
    }
    write_field(&mut out, 2, &d.account_id);
    write_field(&mut out, 3, &d.phone_number);
    write_field(&mut out, 4, &d.requested_user_name);
    write_field(&mut out, 5, &d.bypass_token);
    write_field(&mut out, 6, &d.verification_code);
    write_field(&mut out, 7, &d.verification_sid);
    proof {
        assert(out@ =~= spec_encode_request_data(d@));
    }
    out
}

/// Decoding a buffer that carries the timestamp field at index `i` steps
/// past it and records the timestamp.
proof fn lemma_decode_step_timestamp(bytes: Seq<u8>, i: int, acc: RequestDataView, v: u64)
    requires
        0 <= i,
        i + 1 + spec_varint_encode(v as nat).len() <= bytes.len(),
        bytes.subrange(i, i + 1 + spec_varint_encode(v as nat).len() as int) == seq![8u8]
            + spec_varint_encode(v as nat),
    ensures
        spec_decode_fields(bytes, i, acc) == spec_decode_fields(
            bytes,
            i + 1 + spec_varint_encode(v as nat).len() as int,
            RequestDataView { timestamp: v, ..acc },
        ),
{
    let enc = spec_varint_encode(v as nat);
    let seg = seq![8u8] + enc;
    lemma_varint_encode_len(v as nat);
    assert(bytes[i] == seg[0]) by {
        assert(bytes.subrange(i, i + seg.len() as int)[0] == seg[0]);
    }
    assert(bytes[i] == 8);
    assert(spec_varint_u64_at(bytes, i) == Some((8u64, i + 1)));
    assert(bytes.subrange(i + 1, i + 1 + enc.len() as int) =~= enc) by {
        assert forall|m: int| 0 <= m < enc.len() implies bytes[i + 1 + m] == enc[m] by {
            assert(bytes.subrange(i, i + seg.len() as int)[1 + m] == seg[1 + m]);
        }
    }
    lemma_varint_roundtrip(bytes, i + 1, v as nat, MAX_VARINT_LEN as nat);
}

/// Decoding a buffer that carries length-delimited field `field` at index
/// `i` steps past it and records its content.
proof fn lemma_decode_step_len_field(
    bytes: Seq<u8>,
    i: int,
    field: u64,
    acc: RequestDataView,
    content: Seq<u8>,
)
    requires
        0 <= i,
        2 <= field <= 7,
        0 < content.len() <= u64::MAX,
        spec_field_is_text(field) ==> valid_utf8(content),
        i + spec_field_enc(field, content).len() <= bytes.len(),
        bytes.subrange(i, i + spec_field_enc(field, content).len() as int) == spec_field_enc(
            field,
            content,
        ),
    ensures
        spec_decode_fields(bytes, i, acc) == spec_decode_fields(
            bytes,
            i + spec_field_enc(field, content).len() as int,
            spec_set_field(acc, field, content),
        ),
{
    let lenc = spec_varint_encode(content.len());
    let seg = spec_field_enc(field, content);
    let key = (field * 8 + 2) as u8;
    lemma_varint_encode_len(content.len());
    assert(seg == seq![key] + lenc + content);
    assert(bytes[i] == seg[0]) by {
        assert(bytes.subrange(i, i + seg.len() as int)[0] == seg[0]);
    }
    assert(seg[0] == key);
    assert(key < 0x80);
    assert(spec_varint_u64_at(bytes, i) == Some((key as u64, i + 1)));
    assert((key as u64) / 8 == field);
    assert((key as u64) % 8 == 2);
    assert(bytes.subrange(i + 1, i + 1 + lenc.len() as int) =~= lenc) by {
        assert forall|m: int| 0 <= m < lenc.len() implies bytes[i + 1 + m] == lenc[m] by {
            assert(bytes.subrange(i, i + seg.len() as int)[1 + m] == seg[1 + m]);
            assert(seg[1 + m] == (seq![key] + lenc)[1 + m]);
        }
    }
    lemma_varint_roundtrip(bytes, i + 1, content.len(), MAX_VARINT_LEN as nat);
    let k = i + 1 + lenc.len() as int;
    assert(bytes.subrange(k, k + content.len() as int) =~= content) by {
        assert forall|m: int| 0 <= m < content.len() implies bytes[k + m] == content[m] by {
            assert(bytes.subrange(i, i + seg.len() as int)[1 + lenc.len() + m] == seg[1
                + lenc.len() + m]);
        }
    }
}

/// The two halves of a concatenation, read back out of it.
pub(crate) proof fn lemma_concat_parts(x: Seq<u8>, y: Seq<u8>)
    ensures
        (x + y).subrange(0, x.len() as int) == x,
        (x + y).subrange(x.len() as int, (x.len() + y.len()) as int) == y,
{
    assert((x + y).subrange(0, x.len() as int) =~= x);
    assert((x + y).subrange(x.len() as int, (x.len() + y.len()) as int) =~= y);
}

/// A subrange of a prefix is the same subrange of the whole.
pub(crate) proof fn lemma_subrange_of_prefix(s: Seq<u8>, p: Seq<u8>, a: int, b: int)
    requires
        0 <= a <= b <= p.len(),
        p.len() <= s.len(),
        p == s.subrange(0, p.len() as int),
    ensures
        s.subrange(a, b) == p.subrange(a, b),
{
    assert(s.subrange(a, b) =~= p.subrange(a, b));
}

/// Round trip: decoding the canonical encoding of a faithful payload yields
/// that payload again.
#[verifier::rlimit(100)]
#[verifier::spinoff_prover]
pub proof fn lemma_request_codec_roundtrip(d: RequestDataView)
    requires
        spec_request_data_encodable(d),
    ensures
        spec_decode_request_data(spec_encode_request_data(d)) == Some(d),
{
    let bytes = spec_encode_request_data(d);
    let seg1 = if d.timestamp == 0 {
        Seq::<u8>::empty()
    } else {
        seq![8u8] + spec_varint_encode(d.timestamp as nat)
    };
    let seg2 = spec_field_enc(2, d.account_id);
    let seg3 = spec_field_enc(3, d.phone_number);
    let seg4 = spec_field_enc(4, d.requested_user_name);
    let seg5 = spec_field_enc(5, d.bypass_token);
    let seg6 = spec_field_enc(6, d.verification_code);
    let seg7 = spec_field_enc(7, d.verification_sid);
    let b1 = seg1;
    let b2 = b1 + seg2;
    let b3 = b2 + seg3;
    let b4 = b3 + seg4;
    let b5 = b4 + seg5;
    let b6 = b5 + seg6;
    let b7 = b6 + seg7;
    assert(bytes == b7);
    let p1 = seg1.len() as int;
    let p2 = p1 + seg2.len() as int;
    let p3 = p2 + seg3.len() as int;
    let p4 = p3 + seg4.len() as int;
    let p5 = p4 + seg5.len() as int;
    let p6 = p5 + seg6.len() as int;
    let p7 = p6 + seg7.len() as int;
    assert(bytes.len() == p7);
    lemma_concat_parts(b6, seg7);
    assert(bytes.subrange(p6, p7) == seg7);
    assert(bytes.subrange(0, p6) == b6);
    lemma_concat_parts(b5, seg6);
    lemma_subrange_of_prefix(bytes, b6, p5, p6);
    lemma_subrange_of_prefix(bytes, b6, 0, p5);
    assert(bytes.subrange(p5, p6) == seg6);
    assert(bytes.subrange(0, p5) == b5);
    lemma_concat_parts(b4, seg5);
    lemma_subrange_of_prefix(bytes, b5, p4, p5);
    lemma_subrange_of_prefix(bytes, b5, 0, p4);
    assert(bytes.subrange(p4, p5) == seg5);
    assert(bytes.subrange(0, p4) == b4);
    lemma_concat_parts(b3, seg4);
    lemma_subrange_of_prefix(bytes, b4, p3, p4);
    lemma_subrange_of_prefix(bytes, b4, 0, p3);
    assert(bytes.subrange(p3, p4) == seg4);
    assert(bytes.subrange(0, p3) == b3);
    lemma_concat_parts(b2, seg3);
    lemma_subrange_of_prefix(bytes, b3, p2, p3);
    lemma_subrange_of_prefix(bytes, b3, 0, p2);
    assert(bytes.subrange(p2, p3) == seg3);
    assert(bytes.subrange(0, p2) == b2);
    lemma_concat_parts(b1, seg2);
    lemma_subrange_of_prefix(bytes, b2, p1, p2);
    lemma_subrange_of_prefix(bytes, b2, 0, p1);
    assert(bytes.subrange(p1, p2) == seg2);
    assert(bytes.subrange(0, p1) == b1);
    let acc0 = spec_default_request_data();
    let acc1 = if d.timestamp == 0 {
        acc0
    } else {
        RequestDataView { timestamp: d.timestamp, ..acc0 }
    };
    let acc2 = if d.account_id.len() == 0 {
        acc1
    } else {
        spec_set_field(acc1, 2, d.account_id)
    };
    let acc3 = if d.phone_number.len() == 0 {
        acc2
    } else {
        spec_set_field(acc2, 3, d.phone_number)
    };
    let acc4 = if d.requested_user_name.len() == 0 {
        acc3
    } else {
        spec_set_field(acc3, 4, d.requested_user_name)
    };
    let acc5 = if d.bypass_token.len() == 0 {
        acc4
    } else {
        spec_set_field(acc4, 5, d.bypass_token)
    };
    let acc6 = if d.verification_code.len() == 0 {
        acc5
    } else {
        spec_set_field(acc5, 6, d.verification_code)
    };
    let acc7 = if d.verification_sid.len() == 0 {
        acc6
    } else {
        spec_set_field(acc6, 7, d.verification_sid)
    };
    if d.timestamp != 0 {
        lemma_decode_step_timestamp(bytes, 0, acc0, d.timestamp);
    }
    assert(spec_decode_fields(bytes, 0, acc0) == spec_decode_fields(bytes, p1, acc1));
    if d.account_id.len() != 0 {
        lemma_decode_step_len_field(bytes, p1, 2, acc1, d.account_id);
    }
    assert(spec_decode_fields(bytes, p1, acc1) == spec_decode_fields(bytes, p2, acc2));
    if d.phone_number.len() != 0 {
        lemma_decode_step_len_field(bytes, p2, 3, acc2, d.phone_number);
    }
    assert(spec_decode_fields(bytes, p2, acc2) == spec_decode_fields(bytes, p3, acc3));
    if d.requested_user_name.len() != 0 {
        lemma_decode_step_len_field(bytes, p3, 4, acc3, d.requested_user_name);
    }
    assert(spec_decode_fields(bytes, p3, acc3) == spec_decode_fields(bytes, p4, acc4));
    if d.bypass_token.len() != 0 {
        lemma_decode_step_len_field(bytes, p4, 5, acc4, d.bypass_token);
    }
    assert(spec_decode_fields(bytes, p4, acc4) == spec_decode_fields(bytes, p5, acc5));
    if d.verification_code.len() != 0 {
        lemma_decode_step_len_field(bytes, p5, 6, acc5, d.verification_code);
    }
    assert(spec_decode_fields(bytes, p5, acc5) == spec_decode_fields(bytes, p6, acc6));
    if d.verification_sid.len() != 0 {
        lemma_decode_step_len_field(bytes, p6, 7, acc6, d.verification_sid);
    }
    assert(spec_decode_fields(bytes, p6, acc6) == spec_decode_fields(bytes, p7, acc7));
    assert(spec_decode_fields(bytes, p7, acc7) == Some(acc7));
    assert(acc7.account_id == d.account_id) by {
        if d.account_id.len() == 0 {
            assert(acc7.account_id =~= d.account_id);
        }
    }
    assert(acc7.phone_number == d.phone_number) by {
        if d.phone_number.len() == 0 {
            assert(acc7.phone_number =~= d.phone_number);
        }
    }
    assert(acc7.requested_user_name == d.requested_user_name) by {
        if d.requested_user_name.len() == 0 {
            assert(acc7.requested_user_name =~= d.requested_user_name);
        }
    }
    assert(acc7.bypass_token == d.bypass_token) by {
        if d.bypass_token.len() == 0 {
            assert(acc7.bypass_token =~= d.bypass_token);
        }
    }
    assert(acc7.verification_code == d.verification_code) by {
        if d.verification_code.len() == 0 {
            assert(acc7.verification_code =~= d.verification_code);
        }
    }
    assert(acc7.verification_sid == d.verification_sid) by {
        if d.verification_sid.len() == 0 {
            assert(acc7.verification_sid =~= d.verification_sid);
        }
    }
    assert(acc7 == d);
}

/// The canonical encoding is unambiguous: two faithful payloads with the
/// same encoding are the same payload, so a signature over the encoding
/// commits to the payload itself.
pub proof fn lemma_request_encoding_injective(d1: RequestDataView, d2: RequestDataView)
    requires
        spec_request_data_encodable(d1),
        spec_request_data_encodable(d2),
        spec_encode_request_data(d1) == spec_encode_request_data(d2),
    ensures
        d1 == d2,
{
    lemma_request_codec_roundtrip(d1);
    lemma_request_codec_roundtrip(d2);
}

} // verus!
