//! 64-bit word arithmetic for the execution engine: two's-complement
//! interpretation, wrapping addition and subtraction, shifts as
//! multiplication and division by powers of two, sign extension of 8-, 16-
//! and 32-bit values, and little-endian byte assembly.
use vstd::arithmetic::div_mod::{
    lemma_add_mod_noop_right, lemma_div_is_ordered, lemma_fundamental_div_mod,
    lemma_fundamental_div_mod_converse, lemma_mod_division_less_than_divisor,
    lemma_mod_multiples_basic, lemma_mod_multiples_vanish, lemma_multiply_divide_lt,
};
use vstd::arithmetic::mul::lemma_mul_is_commutative;
use vstd::arithmetic::power2::{
    lemma2_to64, lemma2_to64_rest, lemma_pow2_adds, lemma_pow2_pos,
    lemma_pow2_strictly_increases, pow2,
};
use vstd::prelude::*;

verus! {

/// `x` reduced to the 64-bit word it denotes, two's complement.
pub open spec fn wrap64(x: int) -> u64 {
    (x % 0x1_0000_0000_0000_0000) as u64
}

/// The signed value a 64-bit word denotes.
pub open spec fn signed64(x: u64) -> int {
    if x >= 0x8000_0000_0000_0000 {
        x - 0x1_0000_0000_0000_0000
    } else {
        x as int
    }
}

/// The low 32 bits of a word, as a number.
pub open spec fn low32(x: u64) -> int {
    (x as int) % 0x1_0000_0000
}

/// The signed value a 32-bit quantity denotes.
pub open spec fn signed32(x: int) -> int
    recommends
        0 <= x < 0x1_0000_0000,
{
    if x >= 0x8000_0000 {
        x - 0x1_0000_0000
    } else {
        x
    }
}

/// A 32-bit quantity sign-extended to a 64-bit word.
pub open spec fn sext32_to64(x: int) -> u64
    recommends
        0 <= x < 0x1_0000_0000,
{
    wrap64(signed32(x))
}

/// A 16-bit quantity sign-extended to a 64-bit word.
pub open spec fn sext16_to64(x: int) -> u64
    recommends
        0 <= x < 0x1_0000,
{
    if x >= 0x8000 {
        wrap64(x - 0x1_0000)
    } else {
        wrap64(x)
    }
}

/// An 8-bit quantity sign-extended to a 64-bit word.
pub open spec fn sext8_to64(x: int) -> u64
    recommends
        0 <= x < 0x100,
{
    if x >= 0x80 {
        wrap64(x - 0x100)
    } else {
        wrap64(x)
    }
}

/// `wrap64` on an argument within one word-range of `[0, 2^64)` in closed
/// form.
pub proof fn lemma_wrap64_range(x: int)
    requires
        -0x1_0000_0000_0000_0000 <= x < 0x2_0000_0000_0000_0000,
    ensures
        x < 0 ==> wrap64(x) == x + 0x1_0000_0000_0000_0000,
        0 <= x < 0x1_0000_0000_0000_0000 ==> wrap64(x) == x,
        x >= 0x1_0000_0000_0000_0000 ==> wrap64(x) == x - 0x1_0000_0000_0000_0000,
{
    let m = 0x1_0000_0000_0000_0000int;
    if x < 0 {
        lemma_fundamental_div_mod_converse(x, m, -1, x + m);
    } else if x < m {
        lemma_fundamental_div_mod_converse(x, m, 0, x);
    } else {
        lemma_fundamental_div_mod_converse(x, m, 1, x - m);
    }
}

/// Wrapping 64-bit addition.
pub open spec fn sem_add(a: u64, b: u64) -> u64 {
    wrap64(a + b)
}

/// Wrapping 64-bit subtraction.
pub open spec fn sem_sub(a: u64, b: u64) -> u64 {
    wrap64(a - b)
}

/// Signed less-than on 64-bit words, as the 0-or-1 word the comparison
/// instructions produce.
pub open spec fn sem_slt(a: u64, b: u64) -> u64 {
    if signed64(a) < signed64(b) {
        1
    } else {
        0
    }
}

/// Unsigned less-than on 64-bit words, as a 0-or-1 word.
pub open spec fn sem_sltu(a: u64, b: u64) -> u64 {
    if a < b {
        1
    } else {
        0
    }
}

/// 32-bit wrapping addition, sign-extended to 64 bits.
pub open spec fn sem_addw(a: u64, b: u64) -> u64 {
    sext32_to64((a + b) % 0x1_0000_0000)
}

/// 32-bit wrapping subtraction, sign-extended to 64 bits.
pub open spec fn sem_subw(a: u64, b: u64) -> u64 {
    sext32_to64((a - b) % 0x1_0000_0000)
}

/// Logical left shift: multiplication by `2^sh` modulo `2^64`.
pub open spec fn sem_sll(a: u64, sh: u64) -> u64
    recommends
        sh < 64,
{
    wrap64(a * pow2(sh as nat))
}

/// Logical right shift: division by `2^sh`.
pub open spec fn sem_srl(a: u64, sh: u64) -> u64
    recommends
        sh < 64,
{
    wrap64(a as int / pow2(sh as nat) as int)
}

/// Arithmetic right shift: flooring division of the signed value by
/// `2^sh`, reduced back to a word.
pub open spec fn sem_sra(a: u64, sh: u64) -> u64
    recommends
        sh < 64,
{
    wrap64(signed64(a) / pow2(sh as nat) as int)
}

/// 32-bit logical left shift of the low half, sign-extended to 64 bits.
pub open spec fn sem_sllw(a: u64, sh: u64) -> u64
    recommends
        sh < 32,
{
    sext32_to64((low32(a) * pow2(sh as nat)) % 0x1_0000_0000)
}

/// 32-bit logical right shift of the low half, sign-extended to 64 bits.
pub open spec fn sem_srlw(a: u64, sh: u64) -> u64
    recommends
        sh < 32,
{
    sext32_to64(low32(a) / pow2(sh as nat) as int)
}

/// 32-bit arithmetic right shift of the low half, sign-extended to 64
/// bits.
pub open spec fn sem_sraw(a: u64, sh: u64) -> u64
    recommends
        sh < 32,
{
    wrap64(signed32(low32(a)) / pow2(sh as nat) as int)
}

/// The number a little-endian byte sequence denotes.
pub open spec fn le_val(b: Seq<u8>) -> int
    decreases b.len(),
{
    if b.len() == 0 {
        0
    } else {
        b[0] + 0x100 * le_val(b.subrange(1, b.len() as int))
    }
}

/// The `n` little-endian bytes of the number `x`.
pub open spec fn le_bytes(x: int, n: nat) -> Seq<u8>
    recommends
        0 <= x,
    decreases n,
{
    if n == 0 {
        Seq::empty()
    } else {
        seq![(x % 0x100) as u8] + le_bytes(x / 0x100, (n - 1) as nat)
    }
}

/// `le_bytes` always yields exactly `n` bytes.
pub proof fn lemma_le_bytes_len(x: int, n: nat)
    ensures
        le_bytes(x, n).len() == n,
    decreases n,
{
    if n > 0 {
        lemma_le_bytes_len(x / 0x100, (n - 1) as nat);
    }
}

/// An upper bound for the number `n` little-endian bytes can denote.
pub open spec fn bytes_bound(n: nat) -> int
    decreases n,
{
    if n == 0 {
        1
    } else {
        0x100 * bytes_bound((n - 1) as nat)
    }
}

/// The value of a byte sequence lies under `bytes_bound` of its length.
pub proof fn lemma_le_val_bound(b: Seq<u8>)
    ensures
        0 <= le_val(b) < bytes_bound(b.len()),
    decreases b.len(),
{
    if b.len() > 0 {
        lemma_le_val_bound(b.subrange(1, b.len() as int));
    }
}

/// `bytes_bound` evaluated for the byte counts the emulator uses.
pub proof fn lemma_bytes_bound_values()
    ensures
        bytes_bound(0) == 1,
        bytes_bound(1) == 0x100,
        bytes_bound(2) == 0x1_0000,
        bytes_bound(3) == 0x100_0000,
        bytes_bound(4) == 0x1_0000_0000,
        bytes_bound(5) == 0x100_0000_0000,
        bytes_bound(6) == 0x1_0000_0000_0000,
        bytes_bound(7) == 0x100_0000_0000_0000,
        bytes_bound(8) == 0x1_0000_0000_0000_0000,
{
    assert(bytes_bound(0) == 1);
    assert(bytes_bound(1) == 0x100 * bytes_bound(0));
    assert(bytes_bound(2) == 0x100 * bytes_bound(1));
    assert(bytes_bound(3) == 0x100 * bytes_bound(2));
    assert(bytes_bound(4) == 0x100 * bytes_bound(3));
    assert(bytes_bound(5) == 0x100 * bytes_bound(4));
    assert(bytes_bound(6) == 0x100 * bytes_bound(5));
    assert(bytes_bound(7) == 0x100 * bytes_bound(6));
    assert(bytes_bound(8) == 0x100 * bytes_bound(7));
}

/// Assemble up to eight little-endian bytes into a 64-bit word.
pub fn le_to_u64(b: &Vec<u8>) -> (r: u64)
    requires
        b@.len() <= 8,
    ensures
        r == le_val(b@),
{
    proof {
        lemma_bytes_bound_values();
    }
    let n = b.len();
    let mut r: u64 = 0;
    let mut i: usize = n;
    while i > 0
        invariant
            i <= n == b@.len() <= 8,
            r == le_val(b@.subrange(i as int, n as int)),
            r < bytes_bound((n - i) as nat),
            bytes_bound(8) == 0x1_0000_0000_0000_0000,
        decreases i,
    {
        i = i - 1;
        proof {
            lemma_bytes_bound_values();
            lemma_le_val_bound(b@.subrange(i as int, n as int));
            assert(b@.subrange(i as int, n as int).subrange(1, (n - i) as int) =~= b@.subrange(
                i + 1,
                n as int,
            ));
        }
        r = r * 0x100 + (b[i] as u64);
    }
    assert(b@.subrange(0, n as int) =~= b@);
    r
}

/// Assemble up to four little-endian bytes into a 32-bit word.
pub fn le_to_u32(b: &Vec<u8>) -> (r: u32)
    requires
        b@.len() <= 4,
    ensures
        r == le_val(b@),
{
    proof {
        lemma_bytes_bound_values();
        lemma_le_val_bound(b@);
    }
    let w = le_to_u64(b);
    w as u32
}

/// The `n` little-endian bytes of `x`, lowest first.
pub fn u64_to_le(x: u64, n: usize) -> (b: Vec<u8>)
    requires
        n <= 8,
    ensures
        b@ == le_bytes(x as int, n as nat),
{
    let mut v: Vec<u8> = Vec::new();
    let mut cur: u64 = x;
    let mut i: usize = 0;
    while i < n
        invariant
            i <= n,
            v@.len() == i,
            le_bytes(x as int, n as nat) =~= v@ + le_bytes(cur as int, (n - i) as nat),
        decreases n - i,
    {
        let ghost prev = cur;
        let ghost k = (n - i) as nat;
        v.push((cur % 0x100) as u8);
        cur = cur / 0x100;
        i = i + 1;
        proof {
            assert(le_bytes(prev as int, k) =~= seq![(prev as int % 0x100) as u8] + le_bytes(
                prev as int / 0x100,
                (k - 1) as nat,
            ));
            assert(le_bytes(x as int, n as nat) =~= v@ + le_bytes(cur as int, (n - i) as nat));
        }
    }
    assert(v@ =~= le_bytes(x as int, n as nat));
    v
}

/// Adding a word-reduced value is the same as adding the value itself,
/// modulo the word size.
pub proof fn lemma_wrap64_add(a: u64, x: int)
    ensures
        wrap64(a + wrap64(x)) == wrap64(a + x),
{
    let m = 0x1_0000_0000_0000_0000int;
    lemma_mod_division_less_than_divisor(x, m);
    lemma_add_mod_noop_right(a as int, x, m);
}

/// Word-reducing an addend does not change a sum modulo `2^32` either,
/// because `2^32` divides the word size.
pub proof fn lemma_wrap64_add_low32(a: u64, x: int)
    ensures
        (a + wrap64(x)) % 0x1_0000_0000 == (a + x) % 0x1_0000_0000,
{
    let m = 0x1_0000_0000int;
    let e = 0x1_0000_0000_0000_0000int;
    lemma_mod_division_less_than_divisor(x, e);
    lemma_fundamental_div_mod(x, e);
    let k = x / e;
    // a + wrap64(x) == a + x - (k * e), and k * e is a multiple of 2^32.
    assert(k * 0x1_0000_0000_0000_0000 == (k * 0x1_0000_0000) * 0x1_0000_0000)
        by (nonlinear_arith);
    lemma_mod_multiples_vanish(-(k * 0x1_0000_0000), a + x, m);
    assert(0x1_0000_0000 * (-(k * 0x1_0000_0000)) == -(k * 0x1_0000_0000_0000_0000))
        by (nonlinear_arith);
}

/// A sign-extended 32-bit immediate denotes its own value as a signed
/// 64-bit word.
pub proof fn lemma_signed64_wrap(x: int)
    requires
        -0x8000_0000_0000_0000 <= x < 0x8000_0000_0000_0000,
    ensures
        signed64(wrap64(x)) == x,
{
    lemma_wrap64_range(x);
}

/// Sign extension of a 16-bit value to a full word.
pub fn sext16val(x: u64) -> (r: u64)
    requires
        x < 0x1_0000,
    ensures
        r == sext16_to64(x as int),
{
    proof {
        if x >= 0x8000 {
            lemma_wrap64_range(x - 0x1_0000);
        } else {
            lemma_wrap64_range(x as int);
        }
    }
    if x >= 0x8000 {
        x + 0xFFFF_FFFF_FFFF_0000
    } else {
        x
    }
}

/// Sign extension of an 8-bit value to a full word.
pub fn sext8val(x: u64) -> (r: u64)
    requires
        x < 0x100,
    ensures
        r == sext8_to64(x as int),
{
    proof {
        if x >= 0x80 {
            lemma_wrap64_range(x - 0x100);
        } else {
            lemma_wrap64_range(x as int);
        }
    }
    if x >= 0x80 {
        x + 0xFFFF_FFFF_FFFF_FF00
    } else {
        x
    }
}

/// `2^sh` as a 64-bit word.
pub fn pow2_u64(sh: u64) -> (p: u64)
    requires
        sh < 64,
    ensures
        p == pow2(sh as nat),
        p >= 1,
{
    proof {
        lemma2_to64();
        lemma2_to64_rest();
    }
    let mut p: u64 = 1;
    let mut i: u64 = 0;
    while i < sh
        invariant
            i <= sh < 64,
            p == pow2(i as nat),
        decreases sh - i,
    {
        proof {
            lemma2_to64();
            lemma2_to64_rest();
            lemma_pow2_strictly_increases(i as nat, 63);
            lemma_pow2_adds(i as nat, 1);
        }
        p = p * 2;
        i = i + 1;
    }
    p
}

/// Sign extension of a 32-bit immediate to a 64-bit word.
pub fn sext_imm64(imm: i32) -> (r: u64)
    ensures
        r == wrap64(imm as int),
{
    proof {
        lemma_wrap64_range(imm as int);
    }
    if imm >= 0 {
        imm as u64
    } else {
        let neg: u64 = (-(imm as i64)) as u64;
        (0xFFFF_FFFF_FFFF_FFFF - neg) + 1
    }
}

/// Sign extension of the low 32 bits of a word to a full word.
pub fn sext32val(x: u64) -> (r: u64)
    requires
        x < 0x1_0000_0000,
    ensures
        r == sext32_to64(x as int),
{
    proof {
        lemma_wrap64_range(signed32(x as int));
    }
    if x >= 0x8000_0000 {
        x + 0xFFFF_FFFF_0000_0000
    } else {
        x
    }
}

/// Signed less-than on 64-bit words.
pub fn signed_lt(a: u64, b: u64) -> (r: bool)
    ensures
        r == (signed64(a) < signed64(b)),
{
    let a_neg = a >= 0x8000_0000_0000_0000;
    let b_neg = b >= 0x8000_0000_0000_0000;
    if a_neg == b_neg {
        a < b
    } else {
        a_neg
    }
}

/// Wrapping 64-bit addition.
pub fn op_add(a: u64, b: u64) -> (r: u64)
    ensures
        r == sem_add(a, b),
{
    proof {
        lemma_wrap64_range(a + b);
    }
    a.wrapping_add(b)
}

/// Wrapping 64-bit subtraction.
pub fn op_sub(a: u64, b: u64) -> (r: u64)
    ensures
        r == sem_sub(a, b),
{
    proof {
        lemma_wrap64_range(a - b);
    }
    a.wrapping_sub(b)
}

/// 32-bit wrapping addition, sign-extended.
pub fn op_addw(a: u64, b: u64) -> (r: u64)
    ensures
        r == sem_addw(a, b),
{
    let s = a.wrapping_add(b);
    proof {
        lemma_wrap64_range(a + b);
        if a + b > u64::MAX {
            lemma_mod_multiples_vanish(-0x1_0000_0000, a + b, 0x1_0000_0000);
        }
    }
    sext32val(s % 0x1_0000_0000)
}

/// 32-bit wrapping subtraction, sign-extended.
pub fn op_subw(a: u64, b: u64) -> (r: u64)
    ensures
        r == sem_subw(a, b),
{
    let s = a.wrapping_sub(b);
    proof {
        lemma_wrap64_range(a - b);
        if a - b < 0 {
            lemma_mod_multiples_vanish(0x1_0000_0000, a - b, 0x1_0000_0000);
        }
    }
    sext32val(s % 0x1_0000_0000)
}

/// Logical left shift by `sh < 64`.
pub fn op_sll(a: u64, sh: u64) -> (r: u64)
    requires
        sh < 64,
    ensures
        r == sem_sll(a, sh),
{
    let p = pow2_u64(sh);
    a.wrapping_mul(p)
}

/// Logical right shift by `sh < 64`.
pub fn op_srl(a: u64, sh: u64) -> (r: u64)
    requires
        sh < 64,
    ensures
        r == sem_srl(a, sh),
{
    let p = pow2_u64(sh);
    let q = a / p;
    proof {
        lemma_wrap64_range(a as int / p as int);
        lemma_div_is_ordered(0, a as int, p as int);
    }
    q
}

/// Flooring division of `a - e` by `p` when `p` divides `e`, stated over
/// the quotients of `a` and `e`; the key fact behind arithmetic right
/// shifts of negative values.
proof fn lemma_neg_div(a: int, p: int, e: int)
    requires
        0 <= a < e,
        0 < p <= e,
        e % p == 0,
    ensures
        (a - e) / p == a / p - e / p,
        0 <= a / p,
        a / p < e / p,
        (e - 1) / p == e / p - 1,
{
    let k = e / p;
    lemma_fundamental_div_mod(e, p);
    lemma_fundamental_div_mod(a, p);
    lemma_mod_division_less_than_divisor(a, p);
    let q = a / p;
    let r = a % p;
    assert((q - k) * p + r == a - e) by (nonlinear_arith)
        requires
            a == p * q + r,
            e == p * k,
    ;
    lemma_fundamental_div_mod_converse(a - e, p, q - k, r);
    lemma_div_is_ordered(0, a, p);
    lemma_multiply_divide_lt(a, p, k);
    assert((k - 1) * p + (p - 1) == e - 1) by (nonlinear_arith)
        requires
            e == p * k,
    ;
    lemma_fundamental_div_mod_converse(e - 1, p, k - 1, p - 1);
}

/// Arithmetic right shift by `sh < 64`.
pub fn op_sra(a: u64, sh: u64) -> (r: u64)
    requires
        sh < 64,
    ensures
        r == sem_sra(a, sh),
{
    let p = pow2_u64(sh);
    let q = a / p;
    if a < 0x8000_0000_0000_0000 {
        proof {
            lemma_wrap64_range(a as int / p as int);
            lemma_div_is_ordered(0, a as int, p as int);
        }
        q
    } else {
        let k = u64::MAX / p;
        proof {
            let e = 0x1_0000_0000_0000_0000int;
            lemma_pow2_adds(sh as nat, (64 - sh) as nat);
            lemma2_to64();
            lemma2_to64_rest();
            assert(e == pow2(64) == pow2(sh as nat) * pow2((64 - sh) as nat));
            lemma_mul_is_commutative(pow2(sh as nat) as int, pow2((64 - sh) as nat) as int);
            assert(e == (pow2((64 - sh) as nat) as int) * (p as int));
            lemma_mod_multiples_basic(pow2((64 - sh) as nat) as int, p as int);
            assert(e % (p as int) == 0);
            lemma_neg_div(a as int, p as int, e);
            lemma_wrap64_range(signed64(a) / p as int);
        }
        q + (u64::MAX - k)
    }
}

/// 32-bit logical left shift by `sh < 32`, sign-extended.
pub fn op_sllw(a: u64, sh: u64) -> (r: u64)
    requires
        sh < 32,
    ensures
        r == sem_sllw(a, sh),
{
    let p = pow2_u64(sh);
    proof {
        lemma2_to64();
        lemma_pow2_strictly_increases(sh as nat, 32);
        assert(low32(a) * p < 0x1_0000_0000_0000_0000) by (nonlinear_arith)
            requires
                0 <= low32(a) < 0x1_0000_0000,
                0 < p < 0x1_0000_0000,
        ;
    }
    let x = (a % 0x1_0000_0000) * p;
    sext32val(x % 0x1_0000_0000)
}

/// 32-bit logical right shift by `sh < 32`, sign-extended.
pub fn op_srlw(a: u64, sh: u64) -> (r: u64)
    requires
        sh < 32,
    ensures
        r == sem_srlw(a, sh),
{
    let p = pow2_u64(sh);
    let a32 = a % 0x1_0000_0000;
    let q = a32 / p;
    proof {
        lemma_div_is_ordered(0, a32 as int, p as int);
        lemma_div_is_ordered(a32 as int, 0xFFFF_FFFF, p as int);
        vstd::arithmetic::div_mod::lemma_div_nonincreasing(a32 as int, p as int);
    }
    sext32val(q)
}

/// 32-bit arithmetic right shift by `sh < 32`, sign-extended.
pub fn op_sraw(a: u64, sh: u64) -> (r: u64)
    requires
        sh < 32,
    ensures
        r == sem_sraw(a, sh),
{
    let p = pow2_u64(sh);
    let a32 = a % 0x1_0000_0000;
    let q = a32 / p;
    if a32 < 0x8000_0000 {
        proof {
            lemma_wrap64_range(a32 as int / p as int);
            lemma_div_is_ordered(0, a32 as int, p as int);
            vstd::arithmetic::div_mod::lemma_div_nonincreasing(a32 as int, p as int);
        }
        q
    } else {
        let k = 0xFFFF_FFFFu64 / p;
        proof {
            let e = 0x1_0000_0000int;
            lemma_pow2_adds(sh as nat, (32 - sh) as nat);
            lemma2_to64();
            assert(e == pow2(32) == pow2(sh as nat) * pow2((32 - sh) as nat));
            lemma_mul_is_commutative(pow2(sh as nat) as int, pow2((32 - sh) as nat) as int);
            assert(e == (pow2((32 - sh) as nat) as int) * (p as int));
            lemma_mod_multiples_basic(pow2((32 - sh) as nat) as int, p as int);
            assert(e % (p as int) == 0);
            lemma_neg_div(a32 as int, p as int, e);
            lemma_wrap64_range(signed32(a32 as int) / p as int);
        }
        q + (0xFFFF_FFFF_FFFF_FFFF - k)
    }
}

} // verus!
