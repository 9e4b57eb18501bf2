//! The signed evidence record and its canonical encoding.
//!
//! Evidence binds the verifier's public key and the client's account key to
//! the requested user name and a one-way hash of the phone number; the raw
//! phone number never appears in it. The record is serialized as the two
//! fixed 32-byte keys, the user name behind a compact length prefix, and
//! the fixed 64-byte hash; the same values always serialize to the same
//! bytes, and the verifier's signature is computed over exactly this
//! encoding.

use vstd::prelude::*;
use vstd::arithmetic::div_mod::lemma_fundamental_div_mod;
use crate::codec::copy_range;

verus! {

/// An attestation that an account holds a phone number, before signing.
pub struct VerificationEvidence {
    /// Raw 32-byte public key of the verifier that issues the record.
    pub verifier_public_key: Vec<u8>,
    /// Raw 32-byte account key decoded from the claimed account identifier.
    pub account_id: Vec<u8>,
    /// UTF-8 bytes of the requested user name.
    pub username: Vec<u8>,
    /// 64-byte one-way digest of the phone number.
    pub phone_number_hash: Vec<u8>,
}

/// Mathematical image of `VerificationEvidence`.
pub struct EvidenceView {
    pub verifier_public_key: Seq<u8>,
    pub account_id: Seq<u8>,
    pub username: Seq<u8>,
    pub phone_number_hash: Seq<u8>,
}

impl View for VerificationEvidence {
    type V = EvidenceView;

    open spec fn view(&self) -> EvidenceView {
        EvidenceView {
            verifier_public_key: self.verifier_public_key@,
            account_id: self.account_id@,
            username: self.username@,
            phone_number_hash: self.phone_number_hash@,
        }
    }
}

/// Well-formed evidence: fixed-size key and digest fields, and a user name
/// short enough for a compact length prefix.
pub open spec fn spec_evidence_wf(e: EvidenceView) -> bool {
    &&& e.verifier_public_key.len() == 32
    &&& e.account_id.len() == 32
    &&& e.phone_number_hash.len() == 64
    &&& e.username.len() <= 0xFFFF_FFFF
}

/// Compact length prefix of `n`: two mode bits in the lowest bits of the
/// first byte select a one, two or four byte little-endian form, or a
/// length-prefixed big-integer form for values past `2^30`.
pub open spec fn spec_compact_len(n: nat) -> Seq<u8> {
    if n < 64 {
        seq![(n * 4) as u8]
    } else if n < 16384 {
        seq![((n * 4 + 1) % 256) as u8, ((n * 4 + 1) / 256) as u8]
    } else if n < 0x4000_0000 {
        seq![
            ((n * 4 + 2) % 256) as u8,
            (((n * 4 + 2) / 256) % 256) as u8,
            (((n * 4 + 2) / 65536) % 256) as u8,
            ((n * 4 + 2) / 16777216) as u8,
        ]
    } else {
        seq![
            3u8,
            (n % 256) as u8,
            ((n / 256) % 256) as u8,
            ((n / 65536) % 256) as u8,
            ((n / 16777216) % 256) as u8,
        ]
    }
}

/// The compact length starting at index `i`, with the index just past it.
/// Non-canonical prefixes (a value encoded in a longer form than it needs)
/// are rejected, as is any value past `2^32 - 1`.
pub open spec fn spec_compact_at(bytes: Seq<u8>, i: int) -> Option<(nat, int)> {
    if !(0 <= i < bytes.len()) {
        None
    } else {
        let b = bytes[i] as nat;
        let mode = b % 4;
        if mode == 0 {
            Some(((b / 4) as nat, i + 1))
        } else if mode == 1 {
            if i + 2 <= bytes.len() {
                let n = ((b + 256 * bytes[i + 1]) / 4) as nat;
                if 64 <= n < 16384 {
                    Some((n, i + 2))
                } else {
                    None
                }
            } else {
                None
            }
        } else if mode == 2 {
            if i + 4 <= bytes.len() {
                let n = ((b + 256 * bytes[i + 1] + 65536 * bytes[i + 2] + 16777216 * bytes[i + 3])
                    / 4) as nat;
                if 16384 <= n < 0x4000_0000 {
                    Some((n, i + 4))
                } else {
                    None
                }
            } else {
                None
            }
        } else {
            if b / 4 == 0 && i + 5 <= bytes.len() {
                let n = (bytes[i + 1] + 256 * bytes[i + 2] + 65536 * bytes[i + 3] + 16777216
                    * bytes[i + 4]) as nat;
                if n >= 0x4000_0000 {
                    Some((n, i + 5))
                } else {
                    None
                }
            } else {
                None
            }
        }
    }
}

/// The canonical encoding of an evidence record.
pub open spec fn spec_encode_evidence(e: EvidenceView) -> Seq<u8> {
    e.verifier_public_key + e.account_id + spec_compact_len(e.username.len()) + e.username
        + e.phone_number_hash
}

/// The evidence record denoted by `bytes`, or `None` unless `bytes` is
/// exactly one well-formed record.
pub open spec fn spec_decode_evidence(bytes: Seq<u8>) -> Option<EvidenceView> {
    if bytes.len() < 65 {
        None
    } else {
        match spec_compact_at(bytes, 64) {
            None => None,
            Some((ulen, k)) => if k + ulen + 64 == bytes.len() {
                Some(
                    EvidenceView {
                        verifier_public_key: bytes.subrange(0, 32),
                        account_id: bytes.subrange(32, 64),
                        username: bytes.subrange(k, k + ulen),
                        phone_number_hash: bytes.subrange(k + ulen, k + ulen + 64),
                    },
                )
            } else {
                None
            },
        }
    }
}

/// Appends the compact length prefix of `n` to `out`.
fn write_compact_len(out: &mut Vec<u8>, n: usize)
    requires
        n <= 0xFFFF_FFFF,
    ensures
        final(out)@ == old(out)@ + spec_compact_len(n as nat),
{
    let n64: u64 = n as u64;
    if n64 < 64 {
        out.push((n64 * 4) as u8);
    } else if n64 < 16384 {
        let v: u64 = n64 * 4 + 1;
        out.push((v % 256) as u8);
        out.push((v / 256) as u8);
    } else if n64 < 0x4000_0000 {
        let v: u64 = n64 * 4 + 2;
        out.push((v % 256) as u8);
        out.push(((v / 256) % 256) as u8);
        out.push(((v / 65536) % 256) as u8);
        out.push((v / 16777216) as u8);
    } else {
        out.push(3u8);
        out.push((n64 % 256) as u8);
        out.push(((n64 / 256) % 256) as u8);
        out.push(((n64 / 65536) % 256) as u8);
        out.push(((n64 / 16777216) % 256) as u8);
    }
    proof {
        assert(out@ =~= old(out)@ + spec_compact_len(n as nat));
    }
}

/// Appends all of `src` to `out`.
pub fn append_bytes(out: &mut Vec<u8>, src: &Vec<u8>)
    ensures
        final(out)@ == old(out)@ + src@,
{
    let mut i: usize = 0;
    while i < src.len()
        invariant
            i <= src@.len(),
            out@ == old(out)@ + src@.subrange(0, i as int),
        decreases src@.len() - i,
    {
        out.push(src[i]);
        i = i + 1;
        proof {
            assert(out@ =~= old(out)@ + src@.subrange(0, i as int));
        }
    }
    proof {
        assert(src@.subrange(0, src@.len() as int) =~= src@);
    }
}

/// Serializes an evidence record into its canonical encoding.
pub fn encode_evidence(e: &VerificationEvidence) -> (r: Vec<u8>)
    requires
        spec_evidence_wf(e@),
    ensures
        r@ == spec_encode_evidence(e@),
{
    let mut out: Vec<u8> = Vec::new();
    append_bytes(&mut out, &e.verifier_public_key);
    append_bytes(&mut out, &e.account_id);
    write_compact_len(&mut out, e.username.len());
    append_bytes(&mut out, &e.username);
    append_bytes(&mut out, &e.phone_number_hash);
    proof {
        assert(out@ =~= spec_encode_evidence(e@));
    }
    out
}

/// Reads the compact length starting at `i`; mirrors `spec_compact_at`.
fn read_compact_len(bytes: &Vec<u8>, i: usize) -> (r: Option<(u32, usize)>)
    ensures
        match spec_compact_at(bytes@, i as int) {
            Some(v) => r matches Some(e) && e.0 == v.0 && e.1 == v.1,
            None => r is None,
        },
{
    if i >= bytes.len() {
        return None;
    }
    let b = bytes[i] as u32;
    let mode = b % 4;
    if mode == 0 {
        Some((b / 4, i + 1))
    } else if mode == 1 {
        if bytes.len() - i >= 2 {
            let n = (b + 256 * (bytes[i + 1] as u32)) / 4;
            if 64 <= n && n < 16384 {
                Some((n, i + 2))
            } else {
                None
            }
        } else {
            None
        }
    } else if mode == 2 {
        if bytes.len() - i >= 4 {
            let n = (b + 256 * (bytes[i + 1] as u32) + 65536 * (bytes[i + 2] as u32) + 16777216
                * (bytes[i + 3] as u32)) / 4;
            if 16384 <= n && n < 0x4000_0000 {
                Some((n, i + 4))
            } else {
                None
            }
        } else {
            None
        }
    } else {
        if b / 4 == 0 && bytes.len() - i >= 5 {
            let n64: u64 = (bytes[i + 1] as u64) + 256 * (bytes[i + 2] as u64) + 65536 * (bytes[i
                + 3] as u64) + 16777216 * (bytes[i + 4] as u64);
            if n64 >= 0x4000_0000 {
                Some((n64 as u32, i + 5))
            } else {
                None
            }
        } else {
            None
        }
    }
}

/// Deserializes an evidence record; mirrors `spec_decode_evidence` exactly,
/// returning `None` on every byte string that is not one whole record.
pub fn decode_evidence(bytes: &Vec<u8>) -> (r: Option<VerificationEvidence>)
    ensures
        match spec_decode_evidence(bytes@) {
            Some(e) => r matches Some(v) && v@ == e,
            None => r is None,
        },
{
    if bytes.len() < 65 {
        return None;
    }
    let (ulen, k) = match read_compact_len(bytes, 64) {
        Some(p) => p,
        None => {
            return None;
        },
    };
    let ulen = ulen as usize;
    if !(k <= bytes.len() && bytes.len() - k >= 64 && bytes.len() - k - 64 == ulen) {
        return None;
    }
    let e = VerificationEvidence {
        verifier_public_key: copy_range(bytes, 0, 32),
        account_id: copy_range(bytes, 32, 64),
        username: copy_range(bytes, k, k + ulen),
        phone_number_hash: copy_range(bytes, k + ulen, k + ulen + 64),
    };
    Some(e)
}

/// Reconstructing a value from its two lowest base-256 digits.
proof fn lemma_two_le_bytes(v: nat)
    requires
        v < 65536,
    ensures
        (v % 256) + 256 * (v / 256) == v,
{
    lemma_fundamental_div_mod(v as int, 256);
}

/// Reconstructing a value from its four base-256 digits.
proof fn lemma_four_le_bytes(v: nat)
    requires
        v < 0x1_0000_0000,
    ensures
        (v % 256) + 256 * ((v / 256) % 256) + 65536 * ((v / 65536) % 256) + 16777216 * (v
            / 16777216) == v,
{
    lemma_fundamental_div_mod(v as int, 256);
    lemma_fundamental_div_mod((v / 256) as int, 256);
    lemma_fundamental_div_mod((v / 65536) as int, 256);
    assert((v / 256) / 256 == v / 65536) by (nonlinear_arith);
    assert((v / 65536) / 256 == v / 16777216) by (nonlinear_arith);
    assert(v / 16777216 < 256) by (nonlinear_arith)
        requires v < 0x1_0000_0000;
}

/// The compact length prefix decodes back to the value it encodes, wherever
/// it stands in a buffer.
proof fn lemma_compact_roundtrip(bytes: Seq<u8>, i: int, n: nat)
    requires
        0 <= i,
        n <= 0xFFFF_FFFF,
        i + spec_compact_len(n).len() <= bytes.len(),
        bytes.subrange(i, i + spec_compact_len(n).len() as int) == spec_compact_len(n),
    ensures
        spec_compact_at(bytes, i) == Some((n, i + spec_compact_len(n).len() as int)),
{
    let enc = spec_compact_len(n);
    assert forall|m: int| 0 <= m < enc.len() implies bytes[i + m] == enc[m] by {
        assert(bytes.subrange(i, i + enc.len() as int)[m] == enc[m]);
    }
    assert(bytes[i] == enc[0]) by {
        assert(bytes[i + 0] == enc[0]);
    }
    if n < 64 {
        assert(bytes[i] == (n * 4) as u8);
    } else if n < 16384 {
        let v = n * 4 + 1;
        lemma_two_le_bytes(v);
        assert(bytes[i] == (v % 256) as u8);
        assert(bytes[i + 1] == (v / 256) as u8);
        assert((v % 256) % 4 == 1) by {
            lemma_fundamental_div_mod(v as int, 256);
            assert(v % 4 == 1) by (nonlinear_arith)
                requires v == n * 4 + 1;
            assert((v % 256) % 4 == v % 4) by (nonlinear_arith);
        }
        assert(v / 4 == n) by (nonlinear_arith)
            requires v == n * 4 + 1;
    } else if n < 0x4000_0000 {
        let v = n * 4 + 2;
        lemma_four_le_bytes(v);
        assert((v % 256) % 4 == 2) by {
            assert(v % 4 == 2) by (nonlinear_arith)
                requires v == n * 4 + 2;
            assert((v % 256) % 4 == v % 4) by (nonlinear_arith);
        }
        assert(v / 4 == n) by (nonlinear_arith)
            requires v == n * 4 + 2;
    } else {
        lemma_four_le_bytes(n);
        assert(bytes[i] == 3u8);
    }
}

/// Round trip: decoding the canonical encoding of well-formed evidence
/// yields that evidence again.
pub proof fn lemma_evidence_codec_roundtrip(e: EvidenceView)
    requires
        spec_evidence_wf(e),
    ensures
        spec_decode_evidence(spec_encode_evidence(e)) == Some(e),
{
    let bytes = spec_encode_evidence(e);
    let clen = spec_compact_len(e.username.len());
    let k = 64 + clen.len() as int;
    let prefix = e.verifier_public_key + e.account_id + clen;
    assert(bytes == prefix + e.username + e.phone_number_hash);
    assert(bytes.subrange(64, k) =~= clen);
    lemma_compact_roundtrip(bytes, 64, e.username.len());
    assert(spec_compact_at(bytes, 64) == Some((e.username.len(), k)));
    let d = spec_decode_evidence(bytes).unwrap();
    assert(d.verifier_public_key =~= e.verifier_public_key);
    assert(d.account_id =~= e.account_id);
    assert(d.username =~= e.username);
    assert(d.phone_number_hash =~= e.phone_number_hash);
}

/// The evidence encoding is unambiguous: equal encodings of well-formed
/// records mean equal records, so the verifier's signature over the
/// encoding commits to the record itself.
pub proof fn lemma_evidence_encoding_injective(e1: EvidenceView, e2: EvidenceView)
    requires
        spec_evidence_wf(e1),
        spec_evidence_wf(e2),
        spec_encode_evidence(e1) == spec_encode_evidence(e2),
    ensures
        e1 == e2,
{
    lemma_evidence_codec_roundtrip(e1);
    lemma_evidence_codec_roundtrip(e2);
}

} // verus!
