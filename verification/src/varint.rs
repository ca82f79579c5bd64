//! The variable-length integer codec used by the modern protocol's framing.
//!
//! A varint carries seven payload bits per byte, least significant group
//! first; bit `0x80` marks a continuation.  A 32-bit value never needs more
//! than five bytes, so a decoder that is still mid-value after five bytes
//! rejects the input instead of reading on.

use vstd::prelude::*;
use vstd::arithmetic::div_mod::{
    lemma_add_mod_noop_right, lemma_fundamental_div_mod, lemma_mul_mod_noop_right,
    lemma_multiply_divide_lt,
};

verus! {

/// Outcome of decoding a varint from the front of a buffer.
#[derive(Debug, Clone, Copy, PartialEq, Eq, Structural)]
pub enum VarintStatus {
    /// A complete varint: its value and the number of bytes it occupied.
    Done { value: i32, length: usize },
    /// The buffer ended before the final (continuation-free) byte.
    NeedMore,
    /// Five bytes were read and all of them asked for more.
    Malformed,
}

/// Ghost outcome of scanning a varint, with the value kept as an unbounded
/// integer so that the 32-bit truncation can be applied in one place.
pub enum VarintScan {
    Found { value: int, length: int },
    Incomplete,
    TooLong,
}

/// Scan a varint from the front of `s`, allowing at most `max` bytes.
pub open spec fn spec_varint_scan(s: Seq<u8>, max: nat) -> VarintScan
    decreases max,
{
    if max == 0 {
        VarintScan::TooLong
    } else if s.len() == 0 {
        VarintScan::Incomplete
    } else {
        let b = s[0];
        if b < 0x80 {
            VarintScan::Found { value: b as int, length: 1 }
        } else {
            match spec_varint_scan(s.drop_first(), (max - 1) as nat) {
                VarintScan::Found { value, length } => VarintScan::Found {
                    value: (b - 0x80) + 128 * value,
                    length: length + 1,
                },
                r => r,
            }
        }
    }
}

/// Reinterpret the low 32 bits of a non-negative integer as a signed value.
pub open spec fn spec_i32_from_bits(u: int) -> int {
    if u % 0x1_0000_0000 >= 0x8000_0000 {
        u % 0x1_0000_0000 - 0x1_0000_0000
    } else {
        u % 0x1_0000_0000
    }
}

/// What decoding a varint from the front of `s` yields.
pub open spec fn spec_read_varint(s: Seq<u8>) -> VarintStatus {
    match spec_varint_scan(s, 5) {
        VarintScan::Found { value, length } => VarintStatus::Done {
            value: spec_i32_from_bits(value) as i32,
            length: length as usize,
        },
        VarintScan::Incomplete => VarintStatus::NeedMore,
        VarintScan::TooLong => VarintStatus::Malformed,
    }
}

/// The base-128 digits of `u`, continuation bits set on all but the last,
/// cut off after `fuel` digits.  Five digits always suffice for 32 bits.
pub open spec fn spec_varint_digits(u: int, fuel: nat) -> Seq<u8>
    decreases fuel,
{
    if fuel == 0 {
        Seq::empty()
    } else if u < 0x80 {
        seq![u as u8]
    } else {
        seq![((u % 0x80) + 0x80) as u8] + spec_varint_digits(u / 0x80, (fuel - 1) as nat)
    }
}

/// The bytes that encoding `v` produces.
pub open spec fn spec_encode_varint(v: i32) -> Seq<u8> {
    spec_varint_digits((v as u32) as int, 5)
}

/// 128 raised to `n`; the range coverable by `n` varint digits.
pub open spec fn pow128(n: nat) -> int
    decreases n,
{
    if n == 0 {
        1
    } else {
        128 * pow128((n - 1) as nat)
    }
}

proof fn lemma_pow128_pos(n: nat)
    ensures
        pow128(n) >= 1,
    decreases n,
{
    if n > 0 {
        lemma_pow128_pos((n - 1) as nat);
    }
}

/// Append `value` to `sink`, encoded as a varint.
///
/// Negative values are encoded through their 32-bit two's-complement
/// pattern, so every value takes between one and five bytes.
pub fn write_varint(sink: &mut Vec<u8>, value: i32)
    ensures
        final(sink)@ == old(sink)@ + spec_encode_varint(value),
{
    let mut u: u32 = value as u32;
    let ghost u0: int = u as int;
    proof {
        reveal_with_fuel(pow128, 6);
        assert(pow128(5) == 0x8_0000_0000);
        assert(spec_encode_varint(value) == spec_varint_digits(u0, 5));
    }
    let ghost mut fuel: nat = 5;
    loop
        invariant_except_break
            old(sink)@.len() <= sink@.len(),
            sink@.subrange(0, old(sink)@.len() as int) == old(sink)@,
            spec_varint_digits(u0, 5) == sink@.skip(old(sink)@.len() as int)
                + spec_varint_digits(u as int, fuel),
            (u as int) < pow128(fuel),
            1 <= fuel <= 5,
        ensures
            sink@ == old(sink)@ + spec_varint_digits(u0, 5),
        decreases fuel,
    {
        if u < 0x80 {
            sink.push(u as u8);
            proof {
                assert(spec_varint_digits(u as int, fuel) =~= seq![u as u8]);
                assert(sink@ =~= old(sink)@ + spec_varint_digits(u0, 5));
            }
            break;
        } else {
            let b: u8 = ((u % 0x80) + 0x80) as u8;
            sink.push(b);
            let ghost u_before: int = u as int;
            u = u / 0x80;
            proof {
                assert(spec_varint_digits(u_before, fuel) =~= seq![b]
                    + spec_varint_digits(u_before / 0x80, (fuel - 1) as nat));
                fuel = (fuel - 1) as nat;
                lemma_pow128_pos(fuel);
                assert(u_before < 128 * pow128(fuel));
                lemma_multiply_divide_lt(u_before, 128, pow128(fuel));
                assert(spec_varint_digits(u0, 5) =~= sink@.skip(old(sink)@.len() as int)
                    + spec_varint_digits(u as int, fuel));
            }
        }
    }
}

proof fn lemma_scan_digits(u: int, k: nat, rest: Seq<u8>)
    requires
        0 <= u < pow128(k),
        1 <= k <= 5,
    ensures
        ({
            let enc = spec_varint_digits(u, k);
            &&& 1 <= enc.len() <= k
            &&& spec_varint_scan(enc + rest, k) == (VarintScan::Found {
                value: u,
                length: enc.len() as int,
            })
        }),
    decreases k,
{
    let enc = spec_varint_digits(u, k);
    if u < 0x80 {
        assert((enc + rest)[0] == u as u8);
    } else {
        let b = ((u % 0x80) + 0x80) as u8;
        let tail = spec_varint_digits(u / 0x80, (k - 1) as nat);
        lemma_pow128_pos((k - 1) as nat);
        lemma_multiply_divide_lt(u, 128, pow128((k - 1) as nat));
        lemma_scan_digits(u / 0x80, (k - 1) as nat, rest);
        assert((enc + rest)[0] == b);
        assert((enc + rest).drop_first() =~= tail + rest);
        lemma_fundamental_div_mod(u, 0x80);
    }
}

/// Law: every 32-bit value round-trips through the varint codec.  Decoding
/// an encoded value, with anything at all following it in the buffer, yields
/// exactly that value and consumes exactly the encoded bytes, of which there
/// are between one and five.
pub proof fn lemma_varint_round_trip(v: i32, rest: Seq<u8>)
    ensures
        1 <= spec_encode_varint(v).len() <= 5,
        spec_read_varint(spec_encode_varint(v) + rest) == (VarintStatus::Done {
            value: v,
            length: spec_encode_varint(v).len() as usize,
        }),
{
    let u = (v as u32) as int;
    reveal_with_fuel(pow128, 6);
    assert(pow128(5) == 0x8_0000_0000);
    lemma_scan_digits(u, 5, rest);
    assert(v >= 0 ==> v as u32 == v) by (bit_vector);
    assert(v < 0 ==> v as u32 == v + 0x1_0000_0000) by (bit_vector);
}

/// Law: an input whose first five bytes all carry the continuation bit would
/// need a sixth byte, and is rejected as malformed however it continues.
pub proof fn lemma_varint_too_long(s: Seq<u8>)
    requires
        s.len() >= 5,
        forall|i: int| 0 <= i < 5 ==> s[i] >= 0x80,
    ensures
        spec_read_varint(s) == VarintStatus::Malformed,
{
    let s1 = s.drop_first();
    let s2 = s1.drop_first();
    let s3 = s2.drop_first();
    let s4 = s3.drop_first();
    assert(s1[0] == s[1] && s2[0] == s[2] && s3[0] == s[3] && s4[0] == s[4]);
    assert(spec_varint_scan(s4.drop_first(), 0) is TooLong);
    assert(spec_varint_scan(s4, 1) is TooLong);
    assert(spec_varint_scan(s3, 2) is TooLong);
    assert(spec_varint_scan(s2, 3) is TooLong);
    assert(spec_varint_scan(s1, 4) is TooLong);
    assert(spec_varint_scan(s, 5) is TooLong);
}

/// A decoded varint occupies between one and five bytes of the buffer.
pub proof fn lemma_read_varint_bounds(s: Seq<u8>)
    ensures
        spec_read_varint(s) matches VarintStatus::Done { value, length } ==> 1 <= length <= 5
            && length <= s.len(),
{
    lemma_scan_bounds(s, 5);
}

/// Ghost scan results stay within the byte budget and are non-negative.
proof fn lemma_scan_bounds(s: Seq<u8>, max: nat)
    ensures
        spec_varint_scan(s, max) matches VarintScan::Found { value, length } ==> {
            &&& 0 <= value
            &&& 1 <= length <= max
            &&& length <= s.len()
        },
    decreases max,
{
    if max > 0 && s.len() > 0 && s[0] >= 0x80 {
        lemma_scan_bounds(s.drop_first(), (max - 1) as nat);
    }
}

/// Private exec mirror of `spec_varint_scan`, tracking the value modulo 2^32.
#[derive(Clone, Copy)]
enum ScanExec {
    Found { value: u32, length: u8 },
    Incomplete,
    TooLong,
}

fn scan(data: &[u8], pos: usize, max: u8) -> (r: ScanExec)
    requires
        pos <= data@.len(),
        max <= 5,
    ensures
        ({
            let g = spec_varint_scan(data@.skip(pos as int), max as nat);
            match r {
                ScanExec::Found { value, length } => g matches VarintScan::Found {
                    value: gv,
                    length: gl,
                } && value == gv % 0x1_0000_0000 && length == gl,
                ScanExec::Incomplete => g is Incomplete,
                ScanExec::TooLong => g is TooLong,
            }
        }),
    decreases max,
{
    let ghost s = data@.skip(pos as int);
    if max == 0 {
        ScanExec::TooLong
    } else if pos == data.len() {
        ScanExec::Incomplete
    } else {
        let b = data[pos];
        assert(s[0] == b);
        if b < 0x80 {
            ScanExec::Found { value: b as u32, length: 1 }
        } else {
            let rest = scan(data, pos + 1, max - 1);
            proof {
                assert(data@.skip(pos as int + 1) =~= s.drop_first());
                lemma_scan_bounds(s.drop_first(), (max - 1) as nat);
            }
            match rest {
                ScanExec::Found { value, length } => {
                    let ghost gv = spec_varint_scan(s.drop_first(), (max - 1) as nat)->Found_value;
                    let combined: u32 = ((b - 0x80) as u32).wrapping_add(value.wrapping_mul(128));
                    proof {
                        lemma_mul_mod_noop_right(128, gv, 0x1_0000_0000);
                        lemma_add_mod_noop_right((b - 0x80) as int, 128 * gv, 0x1_0000_0000);
                        assert(combined == ((b - 0x80) + 128 * gv) % 0x1_0000_0000);
                    }
                    ScanExec::Found { value: combined, length: length + 1 }
                },
                r => r,
            }
        }
    }
}

/// Decode one varint from `data` starting at `start`.
///
/// Reports the value and the number of bytes consumed, that the buffer ended
/// mid-value, or that the value would run past the five-byte limit.
pub fn read_varint(data: &[u8], start: usize) -> (r: VarintStatus)
    requires
        start <= data@.len(),
    ensures
        r == spec_read_varint(data@.skip(start as int)),
{
    match scan(data, start, 5) {
        ScanExec::Found { value, length } => {
            proof {
                lemma_scan_bounds(data@.skip(start as int), 5);
                assert(value < 0x8000_0000 ==> value as i32 == value as int) by (bit_vector);
                assert(value >= 0x8000_0000 ==> value as i32 == value - 0x1_0000_0000)
                    by (bit_vector);
                assert((spec_varint_scan(data@.skip(start as int), 5)->Found_value)
                    % 0x1_0000_0000 == value as int % 0x1_0000_0000);
            }
            VarintStatus::Done { value: value as i32, length: length as usize }
        },
        ScanExec::Incomplete => VarintStatus::NeedMore,
        ScanExec::TooLong => VarintStatus::Malformed,
    }
}

} // verus!
