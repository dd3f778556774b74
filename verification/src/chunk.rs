//! Chunks: the power-of-two unit to which every remote fetch is aligned.

use vstd::arithmetic::div_mod::{lemma_fundamental_div_mod, lemma_mod_bound, lemma_mod_multiples_basic};
use vstd::arithmetic::mul::lemma_mul_is_commutative;
use vstd::arithmetic::power2::{lemma_pow2_pos, lemma_pow2_strictly_increases, lemma_pow2_unfold, pow2};
use vstd::prelude::*;

verus! {

/// The largest chunk size that a caller can ask for: 4 GiB.
pub const MAX_CHUNK_SIZE: u64 = 0x1_0000_0000;

/// The largest chunk exponent.
pub const MAX_CHUNK_LOG: u32 = 32;

/// The integer part of the base-two logarithm of `n`; zero for zero.
pub open spec fn floor_log2(n: nat) -> nat
    decreases n,
{
    if n <= 1 {
        0
    } else {
        1 + floor_log2(n / 2)
    }
}

/// `floor_log2(n)` is the exponent of the largest power of two that `n` reaches.
pub proof fn lemma_floor_log2_bounds(n: nat)
    requires
        n >= 1,
    ensures
        pow2(floor_log2(n)) <= n < pow2(floor_log2(n) + 1),
    decreases n,
{
    if n <= 1 {
        lemma_pow2_unfold(1);
        assert(pow2(0) == 1) by {
            reveal(vstd::arithmetic::power::pow);
            reveal(pow2);
        }
    } else {
        lemma_floor_log2_bounds(n / 2);
        lemma_pow2_unfold(floor_log2(n / 2) + 1);
        lemma_pow2_unfold(floor_log2(n / 2) + 2);
    }
}

/// The number of bytes in a chunk of exponent `log`.
pub open spec fn chunk_bytes(log: u32) -> int {
    pow2(log as nat) as int
}

/// The number of bytes in a chunk of exponent `log`.
pub fn chunk_size_of(log: u32) -> (c: u64)
    requires
        log <= MAX_CHUNK_LOG,
    ensures
        c == chunk_bytes(log),
        1 <= c <= MAX_CHUNK_SIZE,
{
    let mut c: u64 = 1;
    let mut i: u32 = 0;
    proof {
        lemma_pow2_base();
    }
    while i < log
        invariant
            i <= log <= MAX_CHUNK_LOG,
            c == pow2(i as nat),
            1 <= c <= pow2(32),
            pow2(32) == 0x1_0000_0000,
        decreases log - i,
    {
        proof {
            lemma_pow2_unfold((i + 1) as nat);
            if i + 1 < 32 {
                lemma_pow2_strictly_increases((i + 1) as nat, 32);
            }
        }
        c = c * 2;
        i = i + 1;
    }
    c
}

/// The two ends of the powers of two that chunk arithmetic uses.
pub proof fn lemma_pow2_base()
    ensures
        pow2(0) == 1,
        pow2(32) == 0x1_0000_0000,
{
    vstd::arithmetic::power2::lemma2_to64();
}

/// The integer part of the base-two logarithm of a positive number.
pub fn ilog2(n: u64) -> (k: u32)
    requires
        n >= 1,
    ensures
        k == floor_log2(n as nat),
        k < 64,
{
    let mut k: u32 = 0;
    let mut m: u64 = n;
    proof {
        lemma_pow2_base();
    }
    while m > 1
        invariant
            m >= 1,
            k + floor_log2(m as nat) == floor_log2(n as nat),
            k < 64,
            k < 63 || m == 1,
            (m as nat) * pow2(k as nat) <= n,
        decreases m,
    {
        proof {
            lemma_pow2_unfold((k + 1) as nat);
            lemma_halving_keeps_product(m as nat, pow2(k as nat), n as nat);
            if k >= 62 {
                lemma_pow2_sixty_three();
                lemma_pow2_strictly_increases(62, (k + 1) as nat);
                assert((m / 2) as nat * pow2((k + 1) as nat) <= n);
                assert(m / 2 == 1) by (nonlinear_arith)
                    requires
                        (m / 2) as nat * pow2((k + 1) as nat) <= n,
                        pow2((k + 1) as nat) >= 0x8000_0000_0000_0000,
                        n <= 0xFFFF_FFFF_FFFF_FFFF,
                        m / 2 >= 1,
                ;
            }
        }
        m = m / 2;
        k = k + 1;
    }
    k
}

proof fn lemma_pow2_sixty_three()
    ensures
        pow2(63) == 0x8000_0000_0000_0000,
{
    vstd::arithmetic::power2::lemma2_to64();
    vstd::arithmetic::power2::lemma2_to64_rest();
}

proof fn lemma_halving_keeps_product(m: nat, p: nat, n: nat)
    by (nonlinear_arith)
    requires
        m * p <= n,
        m > 1,
    ensures
        (m / 2) * (2 * p) <= n,
{
}

/// `x` rounded down to a multiple of `chunk`.
pub open spec fn align_down_spec(x: int, chunk: int) -> int {
    x - x % chunk
}

/// `x` rounded up to a multiple of `chunk`.
pub open spec fn align_up_spec(x: int, chunk: int) -> int {
    align_down_spec(x + chunk - 1, chunk)
}

/// Rounding down yields the multiple of `chunk` that lies at or below `x`,
/// less than one chunk away.
pub proof fn lemma_align_down(x: int, chunk: int)
    requires
        chunk > 0,
    ensures
        align_down_spec(x, chunk) % chunk == 0,
        align_down_spec(x, chunk) <= x < align_down_spec(x, chunk) + chunk,
        x % chunk == 0 ==> align_down_spec(x, chunk) == x,
        x >= 0 ==> align_down_spec(x, chunk) >= 0,
{
    lemma_fundamental_div_mod(x, chunk);
    lemma_mod_bound(x, chunk);
    lemma_mod_multiples_basic(x / chunk, chunk);
    lemma_mul_is_commutative(x / chunk, chunk);
    if x >= 0 {
        assert(chunk * (x / chunk) >= 0) by (nonlinear_arith)
            requires
                x >= 0,
                chunk > 0,
        ;
    }
}

/// Rounding up yields the multiple of `chunk` that lies at or above `x`,
/// less than one chunk away.
pub proof fn lemma_align_up(x: int, chunk: int)
    requires
        chunk > 0,
    ensures
        align_up_spec(x, chunk) % chunk == 0,
        x <= align_up_spec(x, chunk) < x + chunk,
        x % chunk == 0 ==> align_up_spec(x, chunk) == x,
{
    lemma_align_down(x + chunk - 1, chunk);
    if x % chunk == 0 {
        lemma_align_down(x, chunk);
        let a = align_up_spec(x, chunk);
        // a and x are multiples of chunk with x <= a < x + chunk
        lemma_fundamental_div_mod(a, chunk);
        lemma_fundamental_div_mod(x, chunk);
        assert(a == x) by (nonlinear_arith)
            requires
                a == chunk * (a / chunk),
                x == chunk * (x / chunk),
                x <= a < x + chunk,
                chunk > 0,
        ;
    }
}

/// `x` rounded down to a multiple of the chunk of exponent `log`.
pub fn align_down(x: u64, log: u32) -> (a: u64)
    requires
        log <= MAX_CHUNK_LOG,
    ensures
        a == align_down_spec(x as int, chunk_bytes(log)),
        a % (chunk_bytes(log) as u64) == 0,
        a <= x < a + chunk_bytes(log),
{
    let c = chunk_size_of(log);
    proof {
        lemma_align_down(x as int, c as int);
    }
    x - x % c
}

/// The chunk exponent for an archive whose blocks have exponent `block_log`
/// and size `block_size`, when the caller asks for chunks of `chunk_size`
/// bytes: the block exponent where the request does not exceed a block,
/// else the logarithm of the request, which counts for at most 4 GiB; never
/// more than 32.
pub open spec fn chunk_log_spec(block_log: u16, block_size: u32, chunk_size: Option<u64>) -> u32 {
    let asked: u64 = match chunk_size {
        Some(x) => if x > MAX_CHUNK_SIZE {
            MAX_CHUNK_SIZE
        } else {
            x
        },
        None => 0,
    };
    let raw: nat = if asked <= block_size {
        block_log as nat
    } else {
        floor_log2(asked as nat)
    };
    if raw > MAX_CHUNK_LOG {
        MAX_CHUNK_LOG
    } else {
        raw as u32
    }
}

/// The chunk exponent for an archive and a caller's chunk-size hint.
pub fn chunk_log(block_log: u16, block_size: u32, chunk_size: Option<u64>) -> (log: u32)
    ensures
        log == chunk_log_spec(block_log, block_size, chunk_size),
        log <= MAX_CHUNK_LOG,
{
    let asked: u64 = match chunk_size {
        Some(x) => if x > MAX_CHUNK_SIZE {
            MAX_CHUNK_SIZE
        } else {
            x
        },
        None => 0,
    };
    let raw: u32 = if asked <= block_size as u64 {
        block_log as u32
    } else {
        ilog2(asked)
    };
    if raw > MAX_CHUNK_LOG {
        MAX_CHUNK_LOG
    } else {
        raw
    }
}

/// Where the blocks are a power of two, the chunk exponent is the larger of
/// the block exponent and the logarithm of the requested size, and a chunk
/// is a whole number of blocks.
pub proof fn lemma_chunk_log_is_max(block_log: u16, block_size: u32, chunk_size: Option<u64>)
    requires
        block_log <= MAX_CHUNK_LOG,
        block_size == pow2(block_log as nat),
    ensures
        ({
            let asked: nat = match chunk_size {
                Some(x) => if x > MAX_CHUNK_SIZE {
                    MAX_CHUNK_SIZE as nat
                } else {
                    x as nat
                },
                None => 0,
            };
            let log = chunk_log_spec(block_log, block_size, chunk_size);
            &&& log >= block_log
            &&& log >= floor_log2(asked) || log == MAX_CHUNK_LOG
            &&& log == block_log || log == floor_log2(asked)
            &&& chunk_bytes(log) >= block_size
        }),
{
    let asked: nat = match chunk_size {
        Some(x) => if x > MAX_CHUNK_SIZE {
            MAX_CHUNK_SIZE as nat
        } else {
            x as nat
        },
        None => 0,
    };
    let log = chunk_log_spec(block_log, block_size, chunk_size);
    lemma_pow2_base();
    lemma_pow2_pos(block_log as nat);
    if asked <= block_size {
        if asked >= 1 {
            lemma_floor_log2_bounds(asked);
            if floor_log2(asked) > block_log {
                lemma_pow2_strictly_increases(block_log as nat, floor_log2(asked));
            }
        }
    } else {
        lemma_floor_log2_bounds(asked);
        let f = floor_log2(asked);
        if f < block_log {
            if f + 1 < block_log {
                lemma_pow2_strictly_increases(f + 1, block_log as nat);
            }
        }
        if f > 32 {
            lemma_pow2_strictly_increases(32, f);
        }
        if f > block_log {
            lemma_pow2_strictly_increases(block_log as nat, f);
        }
    }
}

/// The byte interval `[start, end)` that one fill writes.
#[derive(Copy, Clone, PartialEq, Eq, Debug, Structural)]
pub struct FillWindow {
    /// First byte of the interval.
    pub start: u64,
    /// One past the last byte of the interval.
    pub end: u64,
}

/// The interval fetched for bytes `[start, start + len)` of an archive of
/// `length` bytes: the start rounded down to a chunk boundary, the end
/// rounded up to one and clipped to the archive's length.
pub open spec fn fill_window_spec(log: u32, length: u64, start: u64, len: u64) -> (int, int) {
    let chunk = chunk_bytes(log);
    let a = align_down_spec(start as int, chunk);
    let up = align_up_spec(start + len, chunk);
    let b = if up > length {
        length as int
    } else {
        up
    };
    (a, b)
}

/// The interval of a fill begins on a chunk boundary and ends on one or at
/// the archive's end; it begins at or before the first missing byte, and
/// reaches as far as the missing bytes do inside the archive.
pub proof fn lemma_fill_window(log: u32, length: u64, start: u64, len: u64)
    ensures
        ({
            let chunk = chunk_bytes(log);
            let w = fill_window_spec(log, length, start, len);
            &&& chunk > 0
            &&& w.0 % chunk == 0
            &&& w.1 % chunk == 0 || w.1 == length
            &&& 0 <= w.0 <= start
            &&& w.1 <= length
            &&& start + len <= length ==> start + len <= w.1
        }),
{
    let chunk = chunk_bytes(log);
    lemma_pow2_pos(log as nat);
    lemma_align_down(start as int, chunk);
    lemma_align_up(start + len, chunk);
}

/// Computes the interval that a fill for `[start, start + len)` writes.
pub fn fill_window(log: u32, length: u64, start: u64, len: u64) -> (w: FillWindow)
    requires
        log <= MAX_CHUNK_LOG,
    ensures
        (w.start as int, w.end as int) == fill_window_spec(log, length, start, len),
        w.start % (chunk_bytes(log) as u64) == 0,
        w.end % (chunk_bytes(log) as u64) == 0 || w.end == length,
        w.start <= start,
        start + len <= length ==> start + len <= w.end,
{
    let c = chunk_size_of(log);
    let a = align_down(start, log);
    let s: u128 = start as u128 + len as u128;
    let y: u128 = s + (c as u128) - 1;
    proof {
        lemma_fill_window(log, length, start, len);
        lemma_align_up(s as int, c as int);
    }
    let up: u128 = y - y % (c as u128);
    let b: u64 = if up > length as u128 {
        length
    } else {
        up as u64
    };
    FillWindow { start: a, end: b }
}

} // verus!
