//! Base-128 varint primitives of the request wire format.
//!
//! A varint is a little-endian base-128 number: every byte but the last has
//! its high bit set and contributes seven payload bits. Decoding accepts at
//! most ten bytes, the longest encoding a 64-bit value needs.

use vstd::prelude::*;

verus! {

/// Longest varint accepted by the decoder, in bytes.
pub const MAX_VARINT_LEN: u8 = 10;

/// The number a varint starting at index `i` denotes, together with the
/// index just past it, reading at most `fuel` bytes. `None` on an index out
/// of range, on an unterminated run of continuation bytes, and on a run
/// longer than `fuel` bytes.
pub open spec fn spec_varint_at(bytes: Seq<u8>, i: int, fuel: nat) -> Option<(nat, int)>
    decreases fuel,
{
    if i < 0 || i >= bytes.len() || fuel == 0 {
        None
    } else if bytes[i] < 0x80 {
        Some((bytes[i] as nat, i + 1))
    } else {
        match spec_varint_at(bytes, i + 1, (fuel - 1) as nat) {
            None => None,
            Some((v, j)) => Some((((bytes[i] - 0x80) + 128 * v) as nat, j)),
        }
    }
}

/// A 64-bit value read as a varint at index `i`: at most ten bytes, and the
/// denoted number must fit in a `u64`.
pub open spec fn spec_varint_u64_at(bytes: Seq<u8>, i: int) -> Option<(u64, int)> {
    match spec_varint_at(bytes, i, MAX_VARINT_LEN as nat) {
        None => None,
        Some((v, j)) => if v <= u64::MAX { Some((v as u64, j)) } else { None },
    }
}

/// A decoded varint ends past where it starts and within the buffer.
pub proof fn lemma_varint_at_bounds(bytes: Seq<u8>, i: int, fuel: nat)
    ensures
        spec_varint_at(bytes, i, fuel) matches Some(r) ==> i < r.1 <= bytes.len() && r.1 - i
            <= fuel,
    decreases fuel,
{
    if 0 <= i < bytes.len() && fuel > 0 && bytes[i] >= 0x80 {
        lemma_varint_at_bounds(bytes, i + 1, (fuel - 1) as nat);
    }
}

/// The little-endian base-128 encoding of a number.
pub open spec fn spec_varint_encode(v: nat) -> Seq<u8>
    decreases v,
{
    if v < 0x80 {
        seq![v as u8]
    } else {
        seq![(0x80 + v % 128) as u8] + spec_varint_encode(v / 128)
    }
}

/// The encoding of a 64-bit value is non-empty and at most ten bytes long.
pub proof fn lemma_varint_encode_len(v: nat)
    requires
        v <= u64::MAX,
    ensures
        1 <= spec_varint_encode(v).len() <= MAX_VARINT_LEN,
    decreases v,
{
    if v >= 0x80 {
        lemma_varint_encode_len(v / 128);
        if spec_varint_encode(v / 128).len() == MAX_VARINT_LEN as int {
            lemma_varint_encode_len_lower(v / 128, MAX_VARINT_LEN as nat);
            assert(pow128(9) == 0x8000_0000_0000_0000) by {
                reveal_with_fuel(pow128, 10);
            }
            assert(v >= 128 * (v / 128)) by (nonlinear_arith)
                requires v >= 0;
            assert(128 * (v / 128) >= 128 * 0x8000_0000_0000_0000) by (nonlinear_arith)
                requires v / 128 >= 0x8000_0000_0000_0000;
            assert(false);
        }
    }
}

/// A varint encoding of length `n >= 2` denotes a number of at least
/// `128^(n-1)`.
proof fn lemma_varint_encode_len_lower(v: nat, n: nat)
    requires
        spec_varint_encode(v).len() >= n,
        n >= 2,
    ensures
        v >= pow128((n - 1) as nat),
    decreases n,
{
    assert(v >= 0x80);
    if n == 2 {
        assert(pow128(1) == 128);
    } else {
        lemma_varint_encode_len_lower(v / 128, (n - 1) as nat);
        assert(v >= 128 * (v / 128)) by (nonlinear_arith)
            requires v >= 0;
        assert(128 * (v / 128) >= 128 * pow128((n - 2) as nat)) by (nonlinear_arith)
            requires v / 128 >= pow128((n - 2) as nat);
    }
}

/// `128^n`.
spec fn pow128(n: nat) -> nat
    decreases n,
{
    if n == 0 {
        1
    } else {
        128 * pow128((n - 1) as nat)
    }
}

/// Decoding an encoded varint embedded in a longer buffer yields the encoded
/// number and stops just past the encoding.
pub proof fn lemma_varint_roundtrip(bytes: Seq<u8>, i: int, v: nat, fuel: nat)
    requires
        0 <= i,
        i + spec_varint_encode(v).len() <= bytes.len(),
        bytes.subrange(i, i + spec_varint_encode(v).len() as int) == spec_varint_encode(v),
        spec_varint_encode(v).len() <= fuel,
    ensures
        spec_varint_at(bytes, i, fuel) == Some((v, i + spec_varint_encode(v).len() as int)),
    decreases v,
{
    let enc = spec_varint_encode(v);
    assert(bytes[i] == enc[0]);
    if v < 0x80 {
        assert(bytes[i] == v as u8);
    } else {
        let rest = spec_varint_encode(v / 128);
        assert(enc == seq![(0x80 + v % 128) as u8] + rest);
        assert(bytes[i] == (0x80 + v % 128) as u8);
        assert(bytes.subrange(i + 1, i + 1 + rest.len() as int) == rest) by {
            assert forall|k: int| 0 <= k < rest.len() implies bytes.subrange(
                i + 1,
                i + 1 + rest.len() as int,
            )[k] == rest[k] by {
                assert(bytes[i + 1 + k] == enc[1 + k]);
            }
            assert(bytes.subrange(i + 1, i + 1 + rest.len() as int) =~= rest);
        }
        lemma_varint_roundtrip(bytes, i + 1, v / 128, (fuel - 1) as nat);
        assert(v == (bytes[i] - 0x80) + 128 * (v / 128)) by (nonlinear_arith)
            requires v >= 0x80, bytes[i] == (0x80 + v % 128) as u8;
    }
}

/// Reads the varint starting at `i`, returning its value and the index just
/// past it; mirrors `spec_varint_u64_at` exactly.
pub fn read_varint(bytes: &Vec<u8>, i: usize) -> (r: Option<(u64, usize)>)
    requires
        i <= bytes@.len(),
    ensures
        match spec_varint_u64_at(bytes@, i as int) {
            Some(v) => r matches Some(e) && e.0 == v.0 && e.1 == v.1,
            None => r is None,
        },
{
    read_varint_rec(bytes, i, MAX_VARINT_LEN)
}

fn read_varint_rec(bytes: &Vec<u8>, i: usize, fuel: u8) -> (r: Option<(u64, usize)>)
    requires
        i <= bytes@.len(),
    ensures
        match spec_varint_at(bytes@, i as int, fuel as nat) {
            Some(v) => if v.0 <= u64::MAX {
                r matches Some(e) && e.0 == v.0 && e.1 == v.1
            } else {
                r is None
            },
            None => r is None,
        },
    decreases fuel,
{
    if fuel == 0 || i >= bytes.len() {
        return None;
    }
    let b = bytes[i];
    if b < 0x80 {
        Some((b as u64, i + 1))
    } else {
        let low: u64 = (b - 0x80) as u64;
        match read_varint_rec(bytes, i + 1, fuel - 1) {
            None => {
                proof {
                    if spec_varint_at(bytes@, i as int, fuel as nat) is Some {
                        let inner = spec_varint_at(bytes@, i as int + 1, (fuel - 1) as nat);
                        assert(inner is Some);
                        let vi = inner.unwrap().0;
                        assert(vi > u64::MAX);
                        assert(128 * vi >= vi) by (nonlinear_arith)
                            requires vi >= 0;
                    }
                }
                None
            },
            Some((v, j)) => {
                if v <= 0x01ff_ffff_ffff_ffff {
                    Some((low + v * 128, j))
                } else {
                    proof {
                        let inner = spec_varint_at(bytes@, i as int + 1, (fuel - 1) as nat);
                        let (vi, _) = inner.unwrap();
                        assert(vi == v);
                        assert(128 * vi > u64::MAX) by (nonlinear_arith)
                            requires vi > 0x01ff_ffff_ffff_ffff;
                    }
                    None
                }
            },
        }
    }
}

/// Appends the varint encoding of `v` to `out`.
pub fn write_varint(out: &mut Vec<u8>, v: u64)
    ensures
        final(out)@ == old(out)@ + spec_varint_encode(v as nat),
    decreases v,
{
    if v < 0x80 {
        out.push(v as u8);
        assert(out@ =~= old(out)@ + spec_varint_encode(v as nat));
    } else {
        out.push((0x80 + v % 128) as u8);
        write_varint(out, v / 128);
        assert(out@ =~= old(out)@ + spec_varint_encode(v as nat));
    }
}

} // verus!
