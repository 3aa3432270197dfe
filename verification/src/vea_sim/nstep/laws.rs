//! What the ALU, the branch predicates and the loads mean, stated over
//! integers and bits rather than over the operations that compute them.
use crate::vea_sim::assembler::insn::{BR_ALWAYS, BR_EQ, BR_GE, BR_GT, BR_LE, BR_NE, BR_LT};
use crate::vea_sim::nstep::decode::predicate_spec;
use crate::vea_sim::assembler::lex::sext;
use crate::vea_sim::memory::{be_val, in_space, pow256, valid_width, MemGuard};
use crate::vea_sim::nstep::execute::{alu_spec, commit_spec, compare_spec, lemma_be_val_bound};
use crate::vea_sim::nstep::{Commit, DecodedOp};
use vstd::arithmetic::div_mod::{lemma_fundamental_div_mod, lemma_fundamental_div_mod_converse, lemma_mod_pos_bound};
use vstd::arithmetic::power2::{lemma_pow2_pos, pow2};
use vstd::bits::lemma_u64_shr_is_div;
use vstd::math::abs;
use vstd::prelude::*;

verus! {

/// `sar` is an arithmetic shift: the signed operand divided by `2^b`,
/// rounded toward negative infinity, for every shift amount below 64. In
/// particular a negative operand stays negative.
pub proof fn law_sar_divides_rounding_down(a: i64, b: i64)
    requires
        0 <= b < 64,
    ensures
        alu_spec(0x8, a, b) matches Some(r) && r as int == (a as int) / (pow2(b as nat) as int),
        a < 0 ==> (alu_spec(0x8, a, b) matches Some(r) && r < 0),
{
    let s: u32 = b as u32;
    assert(s == b);
    assert(s % 64 == s);
    let r = alu_spec(0x8, a, b).unwrap();
    assert(r == a >> s);
    let p = pow2(s as nat) as int;
    lemma_pow2_pos(s as nat);
    if a >= 0 {
        let ua = a as u64;
        assert(a >= 0 ==> (a >> s) as int == (ua >> (s as u64)) as int) by (bit_vector)
            requires
                ua == a as u64,
                s < 64,
        ;
        lemma_u64_shr_is_div(ua, s as u64);
        assert(ua as int == a as int);
    } else {
        let c: i64 = !a;
        assert(c == -1 - a) by (bit_vector)
            requires
                c == !a,
        ;
        let uc = c as u64;
        assert(a < 0 ==> (a >> s) as int == -1 - (uc >> (s as u64)) as int) by (bit_vector)
            requires
                c == !a,
                uc == c as u64,
                s < 64,
        ;
        lemma_u64_shr_is_div(uc, s as u64);
        assert(uc as int == c as int);
        let n = c as int;
        let q = n / p;
        let m = n % p;
        lemma_fundamental_div_mod(n, p);
        lemma_mod_pos_bound(n, p);
        assert(a as int == (-1 - q) * p + (p - 1 - m)) by (nonlinear_arith)
            requires
                a as int == -1 - n,
                n == p * q + m,
        ;
        lemma_fundamental_div_mod_converse(a as int, p, -1 - q, p - 1 - m);
    }
}

/// `shr` is a logical shift: the operand read as unsigned, divided by
/// `2^b` (so a shift of a negative operand by one or more is non-negative).
pub proof fn law_shr_divides_unsigned(a: i64, b: i64)
    requires
        0 <= b < 64,
    ensures
        alu_spec(0x7, a, b) matches Some(r) && r as u64 as int == (a as u64 as int) / (pow2(
            b as nat,
        ) as int),
        b > 0 ==> (alu_spec(0x7, a, b) matches Some(r) && r >= 0),
{
    let s: u32 = b as u32;
    assert(s == b);
    assert(s % 64 == s);
    let ua = a as u64;
    let r = alu_spec(0x7, a, b).unwrap();
    assert(r == (ua >> s) as i64);
    assert(((ua >> s) as i64) as u64 == ua >> s) by (bit_vector);
    assert(ua >> s == ua >> (s as u64)) by (bit_vector)
        requires
            s < 64,
    ;
    lemma_u64_shr_is_div(ua, s as u64);
    assert(s > 0 ==> ((ua >> s) as i64) >= 0) by (bit_vector)
        requires
            s < 64,
    ;
}

/// After `cmp` (unsigned) or `cmp.s` (signed) of `a` with `b`, each branch
/// predicate is taken exactly when its comparison of the operands holds,
/// read unsigned or signed: `eq`, `ne`, `lt`, `ge`, `gt` and `le` (so `le`
/// is `lt` or `eq`), and the unconditional branch always.
pub proof fn law_branch_after_compare(a: i64, b: i64, signed: bool)
    ensures
        ({
            let (z, n, c, v) = compare_spec(a, b, signed);
            let x: int = if signed {
                a as int
            } else {
                a as u64 as int
            };
            let y: int = if signed {
                b as int
            } else {
                b as u64 as int
            };
            &&& predicate_spec(BR_ALWAYS, z, n, v) == Some(true)
            &&& predicate_spec(BR_EQ, z, n, v) == Some(x == y)
            &&& predicate_spec(BR_NE, z, n, v) == Some(x != y)
            &&& predicate_spec(BR_LT, z, n, v) == Some(x < y)
            &&& predicate_spec(BR_GE, z, n, v) == Some(x >= y)
            &&& predicate_spec(BR_GT, z, n, v) == Some(x > y)
            &&& predicate_spec(BR_LE, z, n, v) == Some(x <= y)
        }),
{
    let ua = a as u64;
    let ub = b as u64;
    assert((ua == ub) == (a == b)) by (bit_vector)
        requires
            ua == a as u64,
            ub == b as u64,
    ;
    if signed {
        let d = a.wrapping_sub(b);
        if a - b > i64::MAX {
            assert(d as int == a - b - 0x1_0000_0000_0000_0000);
        } else if a - b < i64::MIN {
            assert(d as int == a - b + 0x1_0000_0000_0000_0000);
        } else {
            assert(d as int == a - b);
        }
    }
}

/// A load commits the `width` bytes it reads as a big-endian number: equal
/// to them modulo `256^width`; with the sign flag, in the signed range of
/// that width (the bytes read as a two's-complement number, whatever the
/// width); without it, and narrower than eight bytes, the unsigned value.
pub proof fn law_load_value(rd: usize, addr: u64, width: usize, sign: bool, m: MemGuard)
    requires
        valid_width(width as int),
        in_space(addr as int, width as int),
    ensures
        commit_spec(DecodedOp::Load { rd, addr, width, sext: sign }, m) matches Some(
            Commit::Reg { rd: d, value },
        ) && d == rd && ({
            let raw = be_val(m.bytes_at(addr as int, width as nat)) as int;
            let p = pow256(width as nat) as int;
            &&& (value as int - raw) % p == 0
            &&& sign ==> -(p / 2) <= value < p / 2
            &&& !sign && width < 8 ==> value as int == raw
        }),
{
    let bs = m.bytes_at(addr as int, width as nat);
    lemma_be_val_bound(bs);
    let raw = be_val(bs);
    let p = pow256(width as nat);
    reveal_with_fuel(pow256, 9);
    assert(pow256(1) == 0x100);
    assert(pow256(2) == 0x1_0000);
    assert(pow256(4) == 0x1_0000_0000);
    assert(pow256(8) == 0x1_0000_0000_0000_0000);
    let x = raw as u64;
    assert(x == raw);
    assert(commit_spec(DecodedOp::Load { rd, addr, width, sext: sign }, m) == Some(
        Commit::Reg { rd, value: crate::vea_sim::nstep::execute::loaded(raw, width as nat, sign) },
    ));
    let value = crate::vea_sim::nstep::execute::loaded(raw, width as nat, sign);
    let pi = p as int;
    lemma_fundamental_div_mod_converse(0, pi, 0, 0);
    lemma_fundamental_div_mod_converse(-pi, pi, -1, 0);
    if sign {
        let e = sext(raw, width as nat);
        assert(-(p / 2) <= e < p / 2);
        assert(e == raw || e == raw - p);
        assert(value as int == e);
        if e == raw - p {
            assert((value as int - raw) == -pi);
        }
    } else if width == 8 {
        assert(x as i64 == x || x as i64 == x - 0x1_0000_0000_0000_0000) by (bit_vector);
        assert(value == x as i64);
        if (x as i64) as int != x as int {
            assert((value as int - raw) == -pi);
        }
    } else {
        assert(value as int == raw);
    }
}

/// Bit `i` of a signed word's two's-complement form.
pub open spec fn bit_at(x: i64, i: u64) -> bool {
    ((x as u64) >> i) & 1 == 1
}

/// `and`, `or` and `xor` act bit by bit: a result bit is set where both,
/// either, or exactly one of the operand bits is.
pub proof fn law_alu_bitwise(a: i64, b: i64, i: u64)
    requires
        i < 64,
    ensures
        alu_spec(0x2, a, b) matches Some(r) && bit_at(r, i) == (bit_at(a, i) && bit_at(b, i)),
        alu_spec(0x3, a, b) matches Some(r) && bit_at(r, i) == (bit_at(a, i) || bit_at(b, i)),
        alu_spec(0x5, a, b) matches Some(r) && bit_at(r, i) == (bit_at(a, i) != bit_at(b, i)),
{
    assert((((a & b) as u64) >> i) & 1 == 1 <==> ((((a as u64) >> i) & 1 == 1) && (((b as u64) >> i) & 1
        == 1))) by (bit_vector)
        requires
            i < 64,
    ;
    assert((((a | b) as u64) >> i) & 1 == 1 <==> ((((a as u64) >> i) & 1 == 1) || (((b as u64) >> i) & 1
        == 1))) by (bit_vector)
        requires
            i < 64,
    ;
    assert((((a ^ b) as u64) >> i) & 1 == 1 <==> ((((a as u64) >> i) & 1 == 1) != (((b as u64) >> i) & 1
        == 1))) by (bit_vector)
        requires
            i < 64,
    ;
}

/// `add`, `sub` and `mul` wrap: the result is the one value in the signed
/// 64-bit range that agrees with the exact sum, difference or product
/// modulo `2^64`.
pub proof fn law_alu_wraps(a: i64, b: i64)
    ensures
        alu_spec(0x0, a, b) matches Some(r) && (r as int - (a + b)) % 0x1_0000_0000_0000_0000 == 0,
        alu_spec(0x1, a, b) matches Some(r) && (r as int - (a - b)) % 0x1_0000_0000_0000_0000 == 0,
        alu_spec(0x9, a, b) matches Some(r) && (r as int - a * b) % 0x1_0000_0000_0000_0000 == 0,
{
    let m: int = 0x1_0000_0000_0000_0000;
    lemma_fundamental_div_mod_converse(0, m, 0, 0);
    lemma_fundamental_div_mod_converse(m, m, 1, 0);
    lemma_fundamental_div_mod_converse(-m, m, -1, 0);
    let x = a * b;
    lemma_fundamental_div_mod(x, m);
    vstd::arithmetic::div_mod::lemma_mod_bound(x, m);
    let r = alu_spec(0x9, a, b).unwrap();
    let q = x / m;
    if x % m > i64::MAX {
        assert(r as int == x % m - m);
        assert(r as int - x == (-q - 1) * m) by (nonlinear_arith)
            requires
                x == m * q + x % m,
                r as int == x % m - m,
        ;
        lemma_fundamental_div_mod_converse(r as int - x, m, -q - 1, 0);
    } else {
        assert(r as int == x % m);
        assert(r as int - x == (-q) * m) by (nonlinear_arith)
            requires
                x == m * q + x % m,
                r as int == x % m,
        ;
        lemma_fundamental_div_mod_converse(r as int - x, m, -q, 0);
    }
}

/// `div` divides truncating toward zero: the remainder is smaller than the
/// divisor in magnitude and takes the dividend's sign; the one quotient out
/// of range (`i64::MIN / -1`) wraps back to `i64::MIN`; a zero divisor has
/// no result.
pub proof fn law_alu_div(a: i64, b: i64)
    ensures
        b == 0 ==> alu_spec(0xA, a, b) is None,
        b != 0 && !(a == i64::MIN && b == -1) ==> (alu_spec(0xA, a, b) matches Some(q) && {
            let rem = a - q * b;
            &&& -abs(b as int) < rem < abs(b as int)
            &&& a >= 0 ==> rem >= 0
            &&& a <= 0 ==> rem <= 0
        }),
        a == i64::MIN && b == -1 ==> alu_spec(0xA, a, b) == Some(i64::MIN),
{
    if b != 0 && !(a == i64::MIN && b == -1) {
        let x = a as int;
        let d = b as int;
        let ax = abs(x) as int;
        let ad = abs(d) as int;
        let q0 = ax / ad;
        lemma_fundamental_div_mod(ax, ad);
        lemma_mod_pos_bound(ax, ad);
        let r0 = ax % ad;
        assert(q0 * ad <= ax) by (nonlinear_arith)
            requires
                ax == ad * q0 + r0,
                r0 >= 0,
        ;
        assert(q0 >= 0) by (nonlinear_arith)
            requires
                ax == ad * q0 + r0,
                r0 < ad,
                ax >= 0,
                ad > 0,
        ;
        assert(q0 <= ax) by (nonlinear_arith)
            requires
                q0 * ad <= ax,
                ad >= 1,
                q0 >= 0,
        ;
        let q = alu_spec(0xA, a, b).unwrap();
        if x == 0 {
            assert(q == 0);
        } else if x > 0 && d > 0 {
            assert(q as int == q0);
            assert(a - q * b == r0) by (nonlinear_arith)
                requires
                    ax == ad * q0 + r0,
                    q as int == q0,
                    ax == a,
                    ad == b,
            ;
        } else if x < 0 && d < 0 {
            assert((x * -1) / (d * -1) == q0);
            assert(q as int == q0) by {
                assert(q0 <= 0x8000_0000_0000_0000);
                if q0 == 0x8000_0000_0000_0000 {
                    assert(ax == 0x8000_0000_0000_0000);
                    assert(ad == 1) by (nonlinear_arith)
                        requires
                            ax == ad * q0 + r0,
                            q0 == 0x8000_0000_0000_0000,
                            ax == 0x8000_0000_0000_0000,
                            r0 >= 0,
                            ad >= 1,
                    ;
                }
            }
            assert(a - q * b == -r0) by (nonlinear_arith)
                requires
                    ax == ad * q0 + r0,
                    q as int == q0,
                    ax == -a,
                    ad == -b,
            ;
        } else if x < 0 {
            assert(((x * -1) / d) * -1 == -q0);
            assert(q as int == -q0);
            assert(a - q * b == -r0) by (nonlinear_arith)
                requires
                    ax == ad * q0 + r0,
                    q as int == -q0,
                    ax == -a,
                    ad == b,
            ;
        } else {
            assert((x / (d * -1)) * -1 == -q0);
            assert(q as int == -q0);
            assert(a - q * b == r0) by (nonlinear_arith)
                requires
                    ax == ad * q0 + r0,
                    q as int == -q0,
                    ax == a,
                    ad == -b,
            ;
        }
    }
}

/// `shl` moves every bit up by the shift amount, dropping those pushed past
/// bit 63 and filling with zeros: bit `i` of the result is bit `i - b` of
/// the operand, or clear below `b`.
pub proof fn law_shl_moves_bits_up(a: i64, b: i64, i: u64)
    requires
        0 <= b < 64,
        i < 64,
    ensures
        alu_spec(0x6, a, b) matches Some(r) && bit_at(r, i) == (i >= b && bit_at(a, (i - b) as u64)),
{
    let s: u32 = b as u32;
    assert(s == b);
    assert(s % 64 == s);
    let ua = a as u64;
    let j: u64 = if i >= b {
        (i - b) as u64
    } else {
        0
    };
    assert(((a << s) as u64 >> i) & 1 == 1 <==> (i >= s && ((ua >> j) & 1 == 1))) by (bit_vector)
        requires
            ua == a as u64,
            s < 64,
            i < 64,
            i >= s ==> j == i - s,
    ;
}

/// `not` complements every bit of its source.
pub proof fn law_not_complements(rd: usize, src: i64, m: MemGuard, i: u64)
    requires
        i < 64,
    ensures
        commit_spec(DecodedOp::Not { rd, src }, m) matches Some(Commit::Reg { rd: d, value }) && d == rd
            && bit_at(value, i) == !bit_at(src, i),
{
    assert((((!src) as u64) >> i) & 1 == 1 <==> !(((src as u64) >> i) & 1 == 1)) by (bit_vector)
        requires
            i < 64,
    ;
}

} // verus!
