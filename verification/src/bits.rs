//! Bit fields of registers and of memory that the controller reads.
use vstd::arithmetic::div_mod::*;
use vstd::arithmetic::power2::*;
use vstd::bits::*;
use vstd::prelude::*;

verus! {

/// The field of `value` whose lowest bit weighs `lo` and that takes `size` values.
///
/// `lo` and `size` are powers of two: a field of `w` bits that starts at bit `s`
/// has `lo == 2^s` and `size == 2^w`.
pub open spec fn field(value: int, lo: int, size: int) -> int {
    value / lo % size
}

/// `value` with that field replaced by `x`, all other bits as they were.
pub open spec fn with_field(value: int, lo: int, size: int, x: int) -> int {
    value + (x - field(value, lo, size)) * lo
}

/// A number splits into what lies above a field, the field, and what lies below.
proof fn lemma_split(value: int, lo: int, size: int)
    requires
        value >= 0,
        lo > 0,
        size > 0,
    ensures
        value == value / (lo * size) * (lo * size) + field(value, lo, size) * lo + value % lo,
{
    lemma_div_denominator(value, lo, size);
    lemma_fundamental_div_mod(value, lo);
    lemma_fundamental_div_mod(value / lo, size);
    let q = value / (lo * size);
    let f = field(value, lo, size);
    assert(lo * (size * q + f) == q * (lo * size) + f * lo) by (nonlinear_arith);
}

/// What a replaced field reads back as, and that the rest is untouched.
pub proof fn lemma_with_field(value: int, lo: int, size: int, x: int)
    requires
        value >= 0,
        lo > 0,
        size > 0,
        0 <= x < size,
    ensures
        field(with_field(value, lo, size, x), lo, size) == x,
        with_field(value, lo, size, x) % lo == value % lo,
        with_field(value, lo, size, x) / (lo * size) == value / (lo * size),
        with_field(value, lo, size, x) >= 0,
{
    let q = value / (lo * size);
    let low = value % lo;
    let f = field(value, lo, size);
    let n = with_field(value, lo, size, x);
    lemma_split(value, lo, size);
    assert(lo * size > 0) by (nonlinear_arith)
        requires
            lo > 0,
            size > 0,
    ;
    assert(q >= 0) by (nonlinear_arith)
        requires
            value >= 0,
            lo * size > 0,
            q == value / (lo * size),
    ;
    assert(n == lo * (size * q + x) + low) by (nonlinear_arith)
        requires
            value == q * (lo * size) + f * lo + low,
            n == value + (x - f) * lo,
    ;
    lemma_fundamental_div_mod_converse(n, lo, size * q + x, low);
    lemma_fundamental_div_mod_converse(size * q + x, size, q, x);
    assert(0 <= x * lo + low < lo * size) by (nonlinear_arith)
        requires
            0 <= x < size,
            0 <= low < lo,
    ;
    assert(n == (lo * size) * q + (x * lo + low)) by (nonlinear_arith)
        requires
            n == lo * (size * q + x) + low,
    ;
    lemma_fundamental_div_mod_converse(n, lo * size, q, x * lo + low);
    assert(n >= 0) by (nonlinear_arith)
        requires
            n == (lo * size) * q + (x * lo + low),
            q >= 0,
            lo * size > 0,
            x * lo + low >= 0,
    ;
}

/// Masking and shifting in the bits of `x` is replacing the field.
proof fn lemma_insert(value: u64, shift: u64, width: u64, x: u64)
    requires
        shift < 64,
        0 < width < 64,
        shift + width <= 64,
        x < pow2(width as nat),
    ensures
        1u64 << width == pow2(width as nat),
        ((value & !((((1u64 << width) - 1) as u64) << shift)) | (x << shift)) == with_field(
            value as int,
            pow2(shift as nat) as int,
            pow2(width as nat) as int,
            x as int,
        ),
{
    lemma_u64_pow2_no_overflow(width as nat);
    lemma_u64_pow2_no_overflow(shift as nat);
    lemma_u64_shl_is_mul(1, width);
    lemma_u64_shl_is_mul(1, shift);
    let m = ((1u64 << width) - 1) as u64;
    let l = ((1u64 << shift) - 1) as u64;
    let n = (value & !(m << shift)) | (x << shift);
    assert(n & l == value & l) by (bit_vector)
        requires
            shift < 64,
            l == (1u64 << shift) - 1,
            n == (value & !(m << shift)) | (x << shift),
    ;
    assert((n >> shift) & m == x) by (bit_vector)
        requires
            shift < 64,
            0 < width < 64,
            shift + width <= 64,
            m == (1u64 << width) - 1,
            x <= m,
            n == (value & !(m << shift)) | (x << shift),
    ;
    let lo = pow2(shift as nat) as int;
    let size = pow2(width as nat) as int;
    lemma_u64_low_bits_mask_is_mod(n, shift as nat);
    lemma_u64_low_bits_mask_is_mod(value, shift as nat);
    lemma_u64_low_bits_mask_is_mod(n >> shift, width as nat);
    lemma_u64_shr_is_div(n, shift);
    lemma_pow2_adds(shift as nat, width as nat);
    if shift + width == 64 {
        lemma2_to64();
        lemma_basic_div(n as int, lo * size);
        lemma_basic_div(value as int, lo * size);
    } else {
        let t = (shift + width) as u64;
        assert(n >> t == value >> t) by (bit_vector)
            requires
                shift < 64,
                0 < width < 64,
                shift + width < 64,
                t == shift + width,
                m == (1u64 << width) - 1,
                x <= m,
                n == (value & !(m << shift)) | (x << shift),
        ;
        lemma_u64_shr_is_div(n, t);
        lemma_u64_shr_is_div(value, t);
    }
    lemma_split(n as int, lo, size);
    lemma_split(value as int, lo, size);
    let f = field(value as int, lo, size);
    assert((x - f) * lo == x * lo - f * lo) by (nonlinear_arith);
}

/// Reads a field of `width` bits that starts at bit `shift`.
pub fn extract_bits(value: u32, shift: u32, width: u32) -> (r: u32)
    requires
        shift < 32,
        width < 32,
    ensures
        r == field(value as int, pow2(shift as nat) as int, pow2(width as nat) as int),
{
    let v: u64 = value as u64;
    proof {
        lemma_u64_shr_is_div(v, shift as u64);
        lemma_u64_low_bits_mask_is_mod(v >> (shift as u64), width as nat);
        lemma_u64_pow2_no_overflow(width as nat);
        lemma_u64_shl_is_mul(1, width as u64);
        lemma_pow2_pos(shift as nat);
        let s = shift as u64;
        assert(v >> s <= v) by (bit_vector)
            requires s < 64;
        let a = v >> s;
        let b = ((1u64 << (width as u64)) - 1) as u64;
        assert(a & b <= a) by (bit_vector);
    }
    ((v >> (shift as u64)) & ((1u64 << (width as u64)) - 1)) as u32
}

/// `value` with a field of `width` bits at bit `shift` set to `x`, in 64 bits.
pub fn write_bits64(value: u64, shift: u32, width: u32, x: u64) -> (r: u64)
    requires
        shift < 64,
        0 < width < 64,
        shift + width <= 64,
        x < pow2(width as nat),
    ensures
        r == with_field(
            value as int,
            pow2(shift as nat) as int,
            pow2(width as nat) as int,
            x as int,
        ),
{
    proof {
        lemma_insert(value, shift as u64, width as u64, x);
        lemma_pow2_pos(width as nat);
    }
    let mask: u64 = (1u64 << (width as u64)) - 1;
    (value & !(mask << (shift as u64))) | (x << (shift as u64))
}

/// `value` with a field of `width` bits at bit `shift` set to `x`.
pub fn write_bits(value: u32, shift: u32, width: u32, x: u32) -> (r: u32)
    requires
        shift < 32,
        0 < width < 32,
        shift + width <= 32,
        x < pow2(width as nat),
    ensures
        r == with_field(
            value as int,
            pow2(shift as nat) as int,
            pow2(width as nat) as int,
            x as int,
        ),
{
    let r: u64 = write_bits64(value as u64, shift, width, x as u64);
    proof {
        let v = value as u64;
        let s = shift as u64;
        let w = width as u64;
        let y = x as u64;
        lemma_insert(v, s, w, y);
        let m = ((1u64 << w) - 1) as u64;
        lemma_pow2_pos(width as nat);
        assert((v & !(m << s)) | (y << s) <= 0xffff_ffffu64) by (bit_vector)
            requires
                s < 32,
                0 < w < 32,
                s + w <= 32,
                v <= 0xffff_ffffu64,
                m == (1u64 << w) - 1,
                y <= m,
        ;
    }
    r as u32
}

/// A number is what lies above a field, the field, and what lies below it, each with its
/// weight; and the field takes no more values than it has.
pub proof fn law_field_has_its_weight(value: int, lo: int, size: int)
    requires
        value >= 0,
        lo > 0,
        size > 0,
    ensures
        value == value / (lo * size) * (lo * size) + field(value, lo, size) * lo + value % lo,
        0 <= field(value, lo, size) < size,
{
    lemma_split(value, lo, size);
}

/// Replacing a field makes it read as what was put in, and changes nothing above or below it.
pub proof fn law_replaced_field(value: int, lo: int, size: int, x: int)
    requires
        value >= 0,
        lo > 0,
        size > 0,
        0 <= x < size,
    ensures
        field(with_field(value, lo, size, x), lo, size) == x,
        with_field(value, lo, size, x) % lo == value % lo,
        with_field(value, lo, size, x) / (lo * size) == value / (lo * size),
{
    lemma_with_field(value, lo, size, x);
}

} // verus!
