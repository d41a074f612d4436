//! Little-endian decoding of fixed-width values from byte buffers.

use vstd::prelude::*;

verus! {

pub open spec fn pow256(k: nat) -> nat
    decreases k,
{
    if k == 0 { 1 } else { 256 * pow256((k - 1) as nat) }
}

/// The unsigned value of the `n` bytes of `s` starting at `off`, least
/// significant byte first.
pub open spec fn le_value(s: Seq<u8>, off: int, n: nat) -> nat
    decreases n,
{
    if n == 0 { 0 } else { s[off] as nat + 256 * le_value(s, off + 1, (n - 1) as nat) }
}

/// Whether `n` bytes starting at `off` lie inside `s`.
pub open spec fn fits(s: Seq<u8>, off: int, n: nat) -> bool {
    0 <= off && off + n <= s.len()
}

/// Two's-complement reading of an unsigned `bits`-wide value.
pub open spec fn signed(v: nat, bits: nat) -> int {
    if v >= pow2(bits) / 2 { v - pow2(bits) } else { v as int }
}

pub open spec fn pow2(bits: nat) -> nat
    decreases bits,
{
    if bits == 0 { 1 } else { 2 * pow2((bits - 1) as nat) }
}

pub open spec fn le_u8(s: Seq<u8>, off: int) -> u8 {
    s[off]
}

#[verifier::opaque]
pub open spec fn le_i8(s: Seq<u8>, off: int) -> i8 {
    signed(le_value(s, off, 1), 8) as i8
}

#[verifier::opaque]
pub open spec fn le_i16(s: Seq<u8>, off: int) -> i16 {
    signed(le_value(s, off, 2), 16) as i16
}

#[verifier::opaque]
pub open spec fn le_u32(s: Seq<u8>, off: int) -> u32 {
    le_value(s, off, 4) as u32
}

#[verifier::opaque]
pub open spec fn le_i32(s: Seq<u8>, off: int) -> i32 {
    signed(le_value(s, off, 4), 32) as i32
}

#[verifier::opaque]
pub open spec fn le_u64(s: Seq<u8>, off: int) -> u64 {
    le_value(s, off, 8) as u64
}

proof fn lemma_pow_facts()
    ensures
        pow256(1) == 256,
        pow256(2) == 65536,
        pow256(4) == 4294967296,
        pow256(8) == 18446744073709551616,
        pow2(8) == 256,
        pow2(16) == 65536,
        pow2(32) == 4294967296,
{
    reveal_with_fuel(pow256, 9);
    reveal_with_fuel(pow2, 33);
}

/// Reads the `n`-byte unsigned little-endian value at `off`, or `None` when
/// it does not lie inside `bytes`.
pub fn read_le(bytes: &[u8], off: usize, n: usize) -> (v: Option<u64>)
    requires
        1 <= n <= 8,
    ensures
        v is Some <==> fits(bytes@, off as int, n as nat),
        v matches Some(x) ==> x as nat == le_value(bytes@, off as int, n as nat),
        v matches Some(x) ==> (x as nat) < pow256(n as nat),
{
    if off > bytes.len() || n > bytes.len() - off {
        return None;
    }
    let mut acc: u64 = 0;
    let mut k: usize = n;
    proof {
        lemma_pow_facts();
    }
    while k > 0
        invariant
            k <= n <= 8,
            off + n <= bytes.len(),
            acc as nat == le_value(bytes@, (off + k) as int, (n - k) as nat),
            (acc as nat) < pow256((n - k) as nat),
            pow256(8) == 18446744073709551616,
        decreases k,
    {
        let b = bytes[off + k - 1];
        let ghost prev = acc as nat;
        let ghost p = pow256((n - k) as nat);
        proof {
            lemma_pow256_monotone((n - k) as nat, 7);
            assert(p * 256 == pow256((n - k + 1) as nat));
            assert(prev * 256 + b < p * 256) by (nonlinear_arith)
                requires prev < p, b < 256;
            assert(pow256((n - k + 1) as nat) <= pow256(8)) by {
                lemma_pow256_monotone((n - k + 1) as nat, 8);
            }
        }
        acc = acc * 256 + b as u64;
        k = k - 1;
        proof {
            assert(le_value(bytes@, (off + k) as int, (n - k) as nat)
                == bytes@[(off + k) as int] as nat + 256 * le_value(bytes@, (off + k + 1) as int, (n - k - 1) as nat));
        }
    }
    Some(acc)
}

proof fn lemma_pow256_monotone(a: nat, b: nat)
    requires
        a <= b,
    ensures
        pow256(a) <= pow256(b),
        pow256(a) >= 1,
    decreases b,
{
    if a < b {
        lemma_pow256_monotone(a, (b - 1) as nat);
    } else if a > 0 {
        lemma_pow256_monotone((a - 1) as nat, (a - 1) as nat);
    }
}

pub fn read_u8_at(bytes: &[u8], off: usize) -> (v: Option<u8>)
    ensures
        v is Some <==> fits(bytes@, off as int, 1),
        v matches Some(x) ==> x == le_u8(bytes@, off as int),
{
    if off < bytes.len() { Some(bytes[off]) } else { None }
}

pub fn read_i8_at(bytes: &[u8], off: usize) -> (v: Option<i8>)
    ensures
        v is Some <==> fits(bytes@, off as int, 1),
        v matches Some(x) ==> x == le_i8(bytes@, off as int),
{
    match read_le(bytes, off, 1) {
        Some(x) => {
            proof {
                lemma_pow_facts();
                reveal_with_fuel(le_value, 2);
                reveal(le_i8);
            }
            let r: i64 = if x >= 128 { x as i64 - 256 } else { x as i64 };
            Some(r as i8)
        }
        None => None,
    }
}

pub fn read_i16_at(bytes: &[u8], off: usize) -> (v: Option<i16>)
    ensures
        v is Some <==> fits(bytes@, off as int, 2),
        v matches Some(x) ==> x == le_i16(bytes@, off as int),
{
    match read_le(bytes, off, 2) {
        Some(x) => {
            proof {
                lemma_pow_facts();
            }
            proof {
                reveal(le_i16);
            }
            let r: i64 = if x >= 32768 { x as i64 - 65536 } else { x as i64 };
            Some(r as i16)
        }
        None => None,
    }
}

pub fn read_u32_at(bytes: &[u8], off: usize) -> (v: Option<u32>)
    ensures
        v is Some <==> fits(bytes@, off as int, 4),
        v matches Some(x) ==> x == le_u32(bytes@, off as int),
{
    match read_le(bytes, off, 4) {
        Some(x) => {
            proof {
                lemma_pow_facts();
            }
            proof {
                reveal(le_u32);
            }
            Some(x as u32)
        }
        None => None,
    }
}

pub fn read_i32_at(bytes: &[u8], off: usize) -> (v: Option<i32>)
    ensures
        v is Some <==> fits(bytes@, off as int, 4),
        v matches Some(x) ==> x == le_i32(bytes@, off as int),
{
    match read_le(bytes, off, 4) {
        Some(x) => {
            proof {
                lemma_pow_facts();
            }
            proof {
                reveal(le_i32);
            }
            let r: i64 = if x >= 2147483648 { x as i64 - 4294967296 } else { x as i64 };
            Some(r as i32)
        }
        None => None,
    }
}

pub fn read_u64_at(bytes: &[u8], off: usize) -> (v: Option<u64>)
    ensures
        v is Some <==> fits(bytes@, off as int, 8),
        v matches Some(x) ==> x == le_u64(bytes@, off as int),
{
    proof {
        reveal(le_u64);
    }
    read_le(bytes, off, 8)
}

} // verus!
