//! The protocol's variable-length encoding of a signed 32-bit integer:
//! seven data bits per byte, least significant group first, high bit of each
//! byte set while more bytes follow. An encoding is at most five bytes long;
//! decoding rejects longer runs of continuation bytes and sources that end
//! before a terminating byte.

use crate::errors::CodecError;
use vstd::prelude::*;

verus! {

/// A signed 32-bit integer carried in the protocol's variable-length encoding.
#[derive(Clone, Copy, Debug, PartialEq, Eq, Structural)]
pub struct VarInt(pub i32);

/// The unsigned 32-bit reading of a signed value's bit pattern.
pub open spec fn i32_bits(v: int) -> int {
    if v < 0 {
        v + 0x1_0000_0000
    } else {
        v
    }
}

/// The signed 32-bit value whose bit pattern is the given unsigned reading.
pub open spec fn bits_i32(v: int) -> int {
    if v > 0x7fff_ffff {
        v - 0x1_0000_0000
    } else {
        v
    }
}

/// The variable-length encoding of a non-negative value: seven bits at a
/// time, low group first, continuation bit on every byte but the last.
pub open spec fn varint_encode_raw(v: int) -> Seq<u8>
    recommends
        0 <= v,
    decreases v,
{
    if v < 0x80 {
        seq![v as u8]
    } else {
        seq![(v % 0x80 + 0x80) as u8] + varint_encode_raw(v / 0x80)
    }
}

/// The encoding of a signed 32-bit value: its bit pattern, seven bits at a time.
pub open spec fn spec_varint_encode(v: i32) -> Seq<u8> {
    varint_encode_raw(i32_bits(v as int))
}

/// Reads one variable-length value from the front of `b`, allowing at most
/// `fuel` bytes; yields the (unbounded) accumulated value and the number of
/// bytes consumed, or nothing when the bytes run out or the budget does.
pub open spec fn varint_decode_raw(b: Seq<u8>, fuel: nat) -> Option<(int, int)>
    decreases fuel,
{
    if fuel == 0 {
        None
    } else if b.len() == 0 {
        None
    } else if b[0] < 0x80 {
        Some((b[0] as int, 1))
    } else {
        match varint_decode_raw(b.drop_first(), (fuel - 1) as nat) {
            Some((v, n)) => Some(((b[0] - 0x80) + 0x80 * v, n + 1)),
            None => None,
        }
    }
}

/// Decodes a signed 32-bit value from the front of `b`: at most five bytes,
/// accumulated bits beyond bit 31 discarded. Yields the value and the number
/// of bytes consumed.
pub open spec fn spec_varint_decode(b: Seq<u8>) -> Option<(i32, int)> {
    match varint_decode_raw(b, 5) {
        Some((v, n)) => Some((bits_i32(v % 0x1_0000_0000) as i32, n)),
        None => None,
    }
}

/// True when the first five bytes all carry the continuation bit: decoding
/// would pass bit position 32 without seeing a terminator.
pub open spec fn varint_overflows(b: Seq<u8>) -> bool {
    b.len() >= 5 && forall|i: int| 0 <= i < 5 ==> b[i] >= 0x80
}

/// True when the source ends, after fewer than five bytes, without a
/// terminating byte.
pub open spec fn varint_truncated(b: Seq<u8>) -> bool {
    b.len() < 5 && forall|i: int| 0 <= i < b.len() ==> b[i] >= 0x80
}

/// The error a failed decode reports: an oversized value where five
/// continuation bytes were seen, a truncated source otherwise.
pub open spec fn spec_varint_error(b: Seq<u8>) -> CodecError {
    if varint_overflows(b) {
        CodecError::VarIntTooLong
    } else {
        CodecError::UnexpectedEnd
    }
}

/// 128 to the `k`th power: the weight of the `k`th encoded byte group.
pub open spec fn pow128(k: nat) -> int
    decreases k,
{
    if k == 0 {
        1
    } else {
        0x80 * pow128((k - 1) as nat)
    }
}

proof fn lemma_pow128_pos(k: nat)
    ensures
        pow128(k) >= 1,
    decreases k,
{
    if k > 0 {
        lemma_pow128_pos((k - 1) as nat);
    }
}

proof fn lemma_pow128_mono(j: nat, k: nat)
    requires
        j <= k,
    ensures
        pow128(j) <= pow128(k),
    decreases k,
{
    if j < k {
        lemma_pow128_mono(j, (k - 1) as nat);
        lemma_pow128_pos((k - 1) as nat);
    }
}

proof fn lemma_pow128_values()
    ensures
        pow128(0nat) == 1,
        pow128(1nat) == 0x80,
        pow128(2nat) == 0x4000,
        pow128(3nat) == 0x20_0000,
        pow128(4nat) == 0x1000_0000,
        pow128(5nat) == 0x8_0000_0000,
{
    assert(pow128(0nat) == 1);
    assert(pow128(1nat) == 0x80 * pow128(0nat));
    assert(pow128(2nat) == 0x80 * pow128(1nat));
    assert(pow128(3nat) == 0x80 * pow128(2nat));
    assert(pow128(4nat) == 0x80 * pow128(3nat));
    assert(pow128(5nat) == 0x80 * pow128(4nat));
}

/// The encoding of a value below `pow128(k)` takes at most `k` bytes, and
/// every encoding takes at least one.
pub proof fn lemma_encode_raw_len(v: int, k: nat)
    requires
        0 <= v < pow128(k),
        1 <= k,
    ensures
        1 <= varint_encode_raw(v).len() <= k,
    decreases k,
{
    if v >= 0x80 {
        assert(0x80 * (v / 0x80) <= v) by (nonlinear_arith)
            requires v >= 0x80;
        assert(v / 0x80 < pow128((k - 1) as nat)) by (nonlinear_arith)
            requires v < 0x80 * pow128((k - 1) as nat), v >= 0x80, pow128((k - 1) as nat) >= 1;
        lemma_encode_raw_len(v / 0x80, (k - 1) as nat);
    }
}

/// Decoding reads back exactly what encoding wrote, leaving any trailing
/// bytes untouched.
pub proof fn lemma_decode_raw_of_encode(v: int, rest: Seq<u8>, fuel: nat)
    requires
        1 <= fuel,
        0 <= v < pow128(fuel),
    ensures
        varint_decode_raw(varint_encode_raw(v) + rest, fuel) == Some(
            (v, varint_encode_raw(v).len() as int),
        ),
    decreases v,
{
    let b = varint_encode_raw(v) + rest;
    if v < 0x80 {
        assert(b[0] == v as u8);
        assert(varint_decode_raw(b, fuel) == Some((v, 1int)));
    } else {
        let lo = v % 0x80;
        let hi = v / 0x80;
        assert(0x80 * hi <= v && hi >= 1) by (nonlinear_arith)
            requires v >= 0x80, hi == v / 0x80;
        assert(hi < pow128((fuel - 1) as nat)) by (nonlinear_arith)
            requires v < 0x80 * pow128((fuel - 1) as nat), hi == v / 0x80, pow128((fuel - 1) as nat) >= 1;
        lemma_pow128_pos((fuel - 1) as nat);
        assert(fuel >= 2) by {
            if fuel == 1 {
                assert(pow128(0nat) == 1);
                assert(pow128(1nat) == 0x80 * pow128(0nat));
            }
        }
        lemma_decode_raw_of_encode(hi, rest, (fuel - 1) as nat);
        assert(b.drop_first() =~= varint_encode_raw(hi) + rest);
        assert(b[0] == (lo + 0x80) as u8);
        assert((b[0] - 0x80) + 0x80 * hi == v);
    }
}

/// Round trip with a suffix: a decoder pointed at an encoding followed by
/// anything else yields the encoded value and consumes exactly the encoding.
pub proof fn lemma_varint_decode_prefix(v: i32, rest: Seq<u8>)
    ensures
        spec_varint_decode(spec_varint_encode(v) + rest) == Some(
            (v, spec_varint_encode(v).len() as int),
        ),
        1 <= spec_varint_encode(v).len() <= 5,
{
    let bits = i32_bits(v as int);
    lemma_pow128_values();
    lemma_decode_raw_of_encode(bits, rest, 5nat);
    lemma_encode_raw_len(bits, 5nat);
    assert(bits % 0x1_0000_0000 == bits);
    assert(bits_i32(i32_bits(v as int)) == v as int);
}

/// For every 32-bit value, decoding its encoding yields the value back and
/// consumes the whole encoding.
pub proof fn lemma_varint_round_trip(v: i32)
    ensures
        spec_varint_decode(spec_varint_encode(v)) == Some(
            (v, spec_varint_encode(v).len() as int),
        ),
{
    lemma_varint_decode_prefix(v, Seq::empty());
    assert(spec_varint_encode(v) + Seq::<u8>::empty() =~= spec_varint_encode(v));
}

proof fn lemma_decode_raw_none(b: Seq<u8>, fuel: nat)
    ensures
        varint_decode_raw(b, fuel) is None <==> (forall|i: int|
            0 <= i < fuel && i < b.len() ==> b[i] >= 0x80),
    decreases fuel,
{
    if fuel > 0 && b.len() > 0 && b[0] >= 0x80 {
        lemma_decode_raw_none(b.drop_first(), (fuel - 1) as nat);
        let rec = b.drop_first();
        assert(forall|i: int| 0 <= i < rec.len() ==> rec[i] == b[i + 1]);
        if varint_decode_raw(b, fuel) is None {
            assert forall|i: int| 0 <= i < fuel && i < b.len() implies b[i] >= 0x80 by {
                if i > 0 {
                    assert(rec[i - 1] >= 0x80);
                }
            }
        } else {
            let j = choose|j: int| 0 <= j < (fuel - 1) && j < rec.len() && rec[j] < 0x80;
            assert(b[j + 1] < 0x80);
        }
    }
}

/// Decoding fails exactly on the malformed inputs: a run of five
/// continuation bytes (the value would pass bit 31), or a source that ends
/// without a terminating byte. In particular the empty source is rejected.
pub proof fn lemma_varint_decode_malformed(b: Seq<u8>)
    ensures
        spec_varint_decode(b) is None <==> (varint_overflows(b) || varint_truncated(b)),
{
    lemma_decode_raw_none(b, 5nat);
}

/// How one step of the accumulation loop rewrites a pending decode: the
/// bytes consumed so far contribute `acc`, and whatever the remainder yields
/// is scaled by the weight `mult` of the next byte.
spec fn decode_compose(acc: int, mult: int, used: int, rec: Option<(int, int)>) -> Option<
    (int, int),
> {
    match rec {
        Some((v, n)) => Some((acc + mult * v, used + n)),
        None => None,
    }
}

proof fn lemma_compose_step(acc: int, mult: int, lo: int, v: int)
    by (nonlinear_arith)
    ensures
        acc + mult * (lo + 0x80 * v) == (acc + lo * mult) + (0x80 * mult) * v,
{
}

impl VarInt {
    /// Encodes the value: its 32-bit pattern, seven bits per byte, low group
    /// first, the continuation bit on every byte but the last. At least one
    /// byte is produced, at most five.
    pub fn to_bytes(&self) -> (r: Vec<u8>)
        ensures
            r@ == spec_varint_encode(self.0),
            1 <= r@.len() <= 5,
    {
        let mut val: u32 = if self.0 >= 0 {
            self.0 as u32
        } else {
            ((self.0 as i64) + 0x1_0000_0000) as u32
        };
        let ghost total = i32_bits(self.0 as int);
        assert(val as int == total);
        let mut result: Vec<u8> = Vec::new();
        while val >= 0x80
            invariant
                varint_encode_raw(total) =~= result@ + varint_encode_raw(val as int),
            decreases val,
        {
            let byte: u8 = (val % 0x80 + 0x80) as u8;
            proof {
                assert(varint_encode_raw(val as int) == seq![byte] + varint_encode_raw(
                    val as int / 0x80,
                ));
                assert(result@ + varint_encode_raw(val as int) =~= (result@ + seq![byte])
                    + varint_encode_raw(val as int / 0x80));
            }
            result.push(byte);
            val = val / 0x80;
        }
        proof {
            assert(varint_encode_raw(val as int) =~= seq![val as u8]);
            lemma_pow128_values();
            lemma_encode_raw_len(total, 5nat);
        }
        result.push(val as u8);
        assert(result@ =~= varint_encode_raw(total));
        result
    }

    /// Decodes a value from the front of `data`, returning it together with
    /// the number of bytes consumed. Fails on a run of five continuation
    /// bytes and on a source that ends without a terminating byte.
    pub fn from_bytes(data: &[u8]) -> (r: Result<(VarInt, usize), CodecError>)
        ensures
            match r {
                Ok((v, n)) => spec_varint_decode(data@) == Some((v.0, n as int)) && 1 <= n <= 5
                    && n <= data@.len(),
                Err(e) => spec_varint_decode(data@) is None && (e == CodecError::VarIntTooLong
                    <==> varint_overflows(data@)) && (e == CodecError::UnexpectedEnd
                    <==> varint_truncated(data@)),
            },
    {
        let mut acc: u64 = 0;
        let mut mult: u64 = 1;
        let mut i: usize = 0;
        proof {
            lemma_pow128_values();
            assert(data@.skip(0) =~= data@);
        }
        while i < 5
            invariant
                i <= 5,
                i <= data@.len(),
                mult == pow128(i as nat),
                i < 5 ==> mult <= 0x1000_0000,
                0 <= acc < mult,
                forall|j: int| 0 <= j < i ==> data@[j] >= 0x80,
                varint_decode_raw(data@, 5) == decode_compose(
                    acc as int,
                    mult as int,
                    i as int,
                    varint_decode_raw(data@.skip(i as int), (5 - i) as nat),
                ),
            decreases 5 - i,
        {
            if i >= data.len() {
                proof {
                    lemma_varint_decode_malformed(data@);
                }
                return Err(CodecError::UnexpectedEnd);
            }
            let byte = data[i];
            let ghost rem = data@.skip(i as int);
            assert(rem.len() > 0 && rem[0] == byte);
            if byte < 0x80 {
                proof {
                    assert(varint_decode_raw(rem, (5 - i) as nat) == Some((byte as int, 1int)));
                    assert(acc + (byte as u64) * mult < 0x80 * mult) by (nonlinear_arith)
                        requires
                            acc < mult,
                            byte < 0x80,
                            mult >= 1,
                    ;
                    assert((byte as int) * (mult as int) == (mult as int) * (byte as int))
                        by (nonlinear_arith);
                }
                let raw: u64 = acc + (byte as u64) * mult;
                let low: u64 = raw % 0x1_0000_0000;
                let value: i32 = if low <= 0x7fff_ffff {
                    low as i32
                } else {
                    ((low as i64) - 0x1_0000_0000) as i32
                };
                assert(value as int == bits_i32(raw as int % 0x1_0000_0000));
                return Ok((VarInt(value), i + 1));
            }
            let lo: u8 = byte - 0x80;
            proof {
                let rec = varint_decode_raw(rem.drop_first(), (4 - i) as nat);
                assert(rem.drop_first() =~= data@.skip(i as int + 1));
                assert(varint_decode_raw(rem, (5 - i) as nat) == match rec {
                    Some((v, n)) => Some(((lo as int) + 0x80 * v, n + 1int)),
                    None => None,
                });
                if rec is Some {
                    let (v, n) = rec->Some_0;
                    lemma_compose_step(acc as int, mult as int, lo as int, v);
                }
                assert(acc + (lo as u64) * mult < 0x80 * mult) by (nonlinear_arith)
                    requires
                        acc < mult,
                        lo < 0x80,
                        mult >= 1,
                ;
                if i + 1 < 5 {
                    lemma_pow128_mono((i + 1) as nat, 4nat);
                    lemma_pow128_values();
                }
            }
            acc = acc + (lo as u64) * mult;
            mult = mult * 0x80;
            i = i + 1;
        }
        proof {
            assert(varint_decode_raw(data@.skip(5), 0nat) is None);
            lemma_varint_decode_malformed(data@);
        }
        Err(CodecError::VarIntTooLong)
    }
}

} // verus!

