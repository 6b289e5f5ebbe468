//! An unsigned 256-bit integer built from four 64-bit limbs.
//!
//! Voting power, token balances, delegation ratios and tallies are all
//! 256-bit quantities on the ledger; this type carries them through the
//! strategy engine with verified arithmetic.

use vstd::prelude::*;
use vstd::arithmetic::div_mod::*;
use vstd::arithmetic::power2::*;

verus! {

/// 2^64, the weight of one limb.
pub open spec fn p64() -> nat {
    0x1_0000_0000_0000_0000
}

/// 2^128.
pub open spec fn p128() -> nat {
    p64() * p64()
}

/// 2^192.
pub open spec fn p192() -> nat {
    p128() * p64()
}

/// 2^256, one more than the largest representable value.
pub open spec fn p256() -> nat {
    p192() * p64()
}

/// A bit times anything is that thing or zero.
proof fn lemma_bit_mul(b: nat, x: int)
    requires
        b <= 1,
    ensures
        b * x == (if b == 1 { x } else { 0 }),
{
    if b == 0 {
        vstd::arithmetic::mul::lemma_mul_by_zero_is_zero(x);
    } else {
        vstd::arithmetic::mul::lemma_mul_basics(x);
    }
}

/// `pow2` at each limb boundary.
proof fn lemma_pow2_limbs()
    ensures
        pow2(64) == p64(),
        pow2(128) == p128(),
        pow2(192) == p192(),
        pow2(256) == p256(),
{
    lemma2_to64_rest();
    lemma_pow2_adds(64, 64);
    lemma_pow2_adds(128, 64);
    lemma_pow2_adds(192, 64);
}

/// One step of reading `v` most-significant-bit first: doubling the
/// left-aligned low `i` bits of `v` pushes out exactly bit `i - 1`.
proof fn lemma_shift_step(v: nat, i: nat, xv: nat, x2v: nat, bx: nat)
    requires
        1 <= i <= 256,
        xv == (v % pow2(i)) * pow2((256 - i) as nat),
        2 * xv == bx * pow2(256) + x2v,
        bx <= 1,
        x2v < pow2(256),
    ensures
        bx == (v / pow2((i - 1) as nat)) % 2,
        x2v == (v % pow2((i - 1) as nat)) * pow2((256 - (i - 1)) as nat),
{
    let j = (i - 1) as nat;
    let k = (256 - i) as nat;
    let low = v % pow2(j);
    let bit = (v / pow2(j)) % 2;
    let pj = pow2(j);
    let pk = pow2(k);
    let pk1 = pow2((k + 1) as nat);
    let pall = pow2(256);
    assert((256 - j) as nat == (k + 1) as nat);
    assert(pow2((256 - j) as nat) == pk1);
    lemma_pow2_pos(j);
    lemma_pow2_pos(i);
    lemma_pow2_pos(k);
    lemma_pow2_pos((k + 1) as nat);
    lemma_pow2_unfold(i);
    lemma_pow2_unfold((k + 1) as nat);
    lemma_pow2_adds(j, (k + 1) as nat);
    assert(j + (k + 1) == 256);
    assert(pall == pj * pk1);
    lemma_breakdown(v as int, pj as int, 2);
    assert(pow2(i) == pj * 2);
    assert(v % pow2(i) == pj * bit + low);
    lemma_mod_division_less_than_divisor(v as int, pj as int);
    assert(2 * xv == bit * pall + low * pk1) by (nonlinear_arith)
        requires
            xv == (pj * bit + low) * pk,
            pk1 == 2 * pk,
            pall == pj * pk1,
    ;
    assert(low * pk1 < pall) by (nonlinear_arith)
        requires
            low < pj,
            pall == pj * pk1,
            pk1 > 0,
    ;
    lemma_bit_mul(bx, pall as int);
    lemma_bit_mul(bit, pall as int);
    lemma_mod_division_less_than_divisor((v / pj) as int, 2);
    assert(x2v == low * pk1);
}

/// The quotient of `v` by `2^(i-1)` in terms of the quotient by `2^i`
/// and bit `i - 1`.
proof fn lemma_quot_step(v: nat, i: nat)
    requires
        1 <= i,
    ensures
        v / pow2((i - 1) as nat) == 2 * (v / pow2(i)) + (v / pow2((i - 1) as nat)) % 2,
{
    let j = (i - 1) as nat;
    lemma_pow2_pos(j);
    lemma_pow2_unfold(i);
    lemma_div_denominator(v as int, pow2(j) as int, 2);
    lemma_fundamental_div_mod((v / pow2(j)) as int, 2);
}

/// The eight bytes of `x`, most significant first.
pub open spec fn u64_be_bytes(x: u64) -> Seq<u8> {
    seq![
        (x / 0x100000000000000 % 256) as u8,
        (x / 0x1000000000000 % 256) as u8,
        (x / 0x10000000000 % 256) as u8,
        (x / 0x100000000 % 256) as u8,
        (x / 0x1000000 % 256) as u8,
        (x / 0x10000 % 256) as u8,
        (x / 0x100 % 256) as u8,
        (x % 256) as u8,
    ]
}

/// The 32 bytes of a 256-bit integer, most significant first.
pub open spec fn u256_be_bytes(x: U256) -> Seq<u8> {
    u64_be_bytes(x.w3) + u64_be_bytes(x.w2) + u64_be_bytes(x.w1) + u64_be_bytes(x.w0)
}

/// Appends the eight bytes of `x` to `out`, most significant first.
pub fn push_u64_be(out: &mut Vec<u8>, x: u64)
    ensures
        final(out)@ == old(out)@ + u64_be_bytes(x),
{
    out.push((x / 0x100000000000000 % 256) as u8);
    out.push((x / 0x1000000000000 % 256) as u8);
    out.push((x / 0x10000000000 % 256) as u8);
    out.push((x / 0x100000000 % 256) as u8);
    out.push((x / 0x1000000 % 256) as u8);
    out.push((x / 0x10000 % 256) as u8);
    out.push((x / 0x100 % 256) as u8);
    out.push((x % 256) as u8);
    proof {
        assert(out@ =~= old(out)@ + u64_be_bytes(x));
    }
}

/// An unsigned 256-bit integer; `w0` is the least significant limb.
#[derive(Clone, Copy, PartialEq, Eq, Structural, Debug)]
pub struct U256 {
    pub w0: u64,
    pub w1: u64,
    pub w2: u64,
    pub w3: u64,
}

impl View for U256 {
    type V = nat;

    open spec fn view(&self) -> nat {
        (self.w0 + self.w1 * p64() + self.w2 * p128() + self.w3 * p192()) as nat
    }
}

impl U256 {
    /// Every value is below 2^256.
    pub proof fn lemma_bound(self)
        ensures
            self@ < p256(),
    {
        assert(self@ < p256()) by (nonlinear_arith)
            requires
                self@ == self.w0 + self.w1 * p64() + self.w2 * p128() + self.w3 * p192(),
                self.w0 < p64(),
                self.w1 < p64(),
                self.w2 < p64(),
                self.w3 < p64(),
        ;
    }

    /// The limbs are the base-2^64 digits of the value, so equal values
    /// mean equal limbs.
    pub proof fn lemma_limbs_determined(self)
        ensures
            self.w0 == self@ % p64(),
            self.w1 == (self@ / p64()) % p64(),
            self.w2 == (self@ / p128()) % p64(),
            self.w3 == self@ / p192(),
    {
        let v = self@ as int;
        let d = p64() as int;
        let q1 = self.w1 + self.w2 * p64() + self.w3 * p128();
        assert(v == q1 * d + self.w0) by (nonlinear_arith)
            requires
                v == self.w0 + self.w1 * p64() + self.w2 * p128() + self.w3 * p192(),
                q1 == self.w1 + self.w2 * p64() + self.w3 * p128(),
                d == p64(),
        ;
        lemma_fundamental_div_mod_converse(v, d, q1 as int, self.w0 as int);
        let q2 = self.w2 + self.w3 * p64();
        assert(q1 == q2 * d + self.w1) by (nonlinear_arith)
            requires
                q1 == self.w1 + self.w2 * p64() + self.w3 * p128(),
                q2 == self.w2 + self.w3 * p64(),
                d == p64(),
        ;
        lemma_fundamental_div_mod_converse(q1 as int, d, q2 as int, self.w1 as int);
        assert(q2 == (self.w3 as int) * d + self.w2);
        lemma_fundamental_div_mod_converse(q2 as int, d, self.w3 as int, self.w2 as int);
        lemma_div_denominator(v, d, d);
        lemma_div_denominator(v, p128() as int, d);
        assert(p128() * p64() == p192());
    }

    /// Two values of this type are equal exactly when they stand for the
    /// same number.
    pub proof fn lemma_eq_iff_value_eq(a: U256, b: U256)
        ensures
            (a == b) <==> (a@ == b@),
    {
        a.lemma_limbs_determined();
        b.lemma_limbs_determined();
    }

    /// The number `x`, widened to 256 bits.
    pub fn from_u64(x: u64) -> (r: U256)
        ensures
            r@ == x,
    {
        U256 { w0: x, w1: 0, w2: 0, w3: 0 }
    }

    /// Zero.
    pub fn zero() -> (r: U256)
        ensures
            r@ == 0,
    {
        U256 { w0: 0, w1: 0, w2: 0, w3: 0 }
    }

    /// True exactly when the value is zero.
    pub fn is_zero(&self) -> (r: bool)
        ensures
            r == (self@ == 0),
    {
        proof {
            self.lemma_limbs_determined();
        }
        self.w0 == 0 && self.w1 == 0 && self.w2 == 0 && self.w3 == 0
    }

    /// Limb-wise lexicographic order, most significant limb first.
    pub open spec fn lex_lt(a: U256, b: U256) -> bool {
        ||| a.w3 < b.w3
        ||| (a.w3 == b.w3 && a.w2 < b.w2)
        ||| (a.w3 == b.w3 && a.w2 == b.w2 && a.w1 < b.w1)
        ||| (a.w3 == b.w3 && a.w2 == b.w2 && a.w1 == b.w1 && a.w0 < b.w0)
    }

    /// Lexicographic order on the limbs agrees with the order on values.
    pub proof fn lemma_lex_order(a: U256, b: U256)
        ensures
            U256::lex_lt(a, b) <==> (a@ < b@),
    {
        if U256::lex_lt(a, b) {
            assert(a@ < b@) by (nonlinear_arith)
                requires
                    a@ == a.w0 + a.w1 * p64() + a.w2 * p128() + a.w3 * p192(),
                    b@ == b.w0 + b.w1 * p64() + b.w2 * p128() + b.w3 * p192(),
                    a.w0 < p64() && a.w1 < p64() && a.w2 < p64() && a.w3 < p64(),
                    b.w0 < p64() && b.w1 < p64() && b.w2 < p64() && b.w3 < p64(),
                    U256::lex_lt(a, b),
            ;
        }
        if U256::lex_lt(b, a) {
            assert(b@ < a@) by (nonlinear_arith)
                requires
                    a@ == a.w0 + a.w1 * p64() + a.w2 * p128() + a.w3 * p192(),
                    b@ == b.w0 + b.w1 * p64() + b.w2 * p128() + b.w3 * p192(),
                    a.w0 < p64() && a.w1 < p64() && a.w2 < p64() && a.w3 < p64(),
                    b.w0 < p64() && b.w1 < p64() && b.w2 < p64() && b.w3 < p64(),
                    U256::lex_lt(b, a),
            ;
        }
        if !U256::lex_lt(a, b) && !U256::lex_lt(b, a) {
            assert(a.w0 == b.w0 && a.w1 == b.w1 && a.w2 == b.w2 && a.w3 == b.w3);
        }
    }

    /// True exactly when `self` is at least `other`.
    pub fn ge(&self, other: &U256) -> (r: bool)
        ensures
            r == (self@ >= other@),
    {
        proof {
            U256::lemma_lex_order(*self, *other);
            U256::lemma_lex_order(*other, *self);
        }
        if self.w3 != other.w3 {
            self.w3 > other.w3
        } else if self.w2 != other.w2 {
            self.w2 > other.w2
        } else if self.w1 != other.w1 {
            self.w1 > other.w1
        } else {
            self.w0 >= other.w0
        }
    }

    /// True exactly when `self` is strictly below `other`.
    pub fn lt(&self, other: &U256) -> (r: bool)
        ensures
            r == (self@ < other@),
    {
        !self.ge(other)
    }

    /// True exactly when `self` is strictly above `other`.
    pub fn gt(&self, other: &U256) -> (r: bool)
        ensures
            r == (self@ > other@),
    {
        !other.ge(self)
    }

    /// The sum, or `None` when it does not fit in 256 bits.
    pub fn checked_add(&self, other: &U256) -> (r: Option<U256>)
        ensures
            match r {
                Some(s) => self@ + other@ < p256() && s@ == self@ + other@,
                None => self@ + other@ >= p256(),
            },
    {
        let t0: u128 = (self.w0 as u128) + (other.w0 as u128);
        let s0: u64 = (t0 % 0x1_0000_0000_0000_0000u128) as u64;
        let c0: u64 = (t0 / 0x1_0000_0000_0000_0000u128) as u64;
        let t1: u128 = (self.w1 as u128) + (other.w1 as u128) + (c0 as u128);
        let s1: u64 = (t1 % 0x1_0000_0000_0000_0000u128) as u64;
        let c1: u64 = (t1 / 0x1_0000_0000_0000_0000u128) as u64;
        let t2: u128 = (self.w2 as u128) + (other.w2 as u128) + (c1 as u128);
        let s2: u64 = (t2 % 0x1_0000_0000_0000_0000u128) as u64;
        let c2: u64 = (t2 / 0x1_0000_0000_0000_0000u128) as u64;
        let t3: u128 = (self.w3 as u128) + (other.w3 as u128) + (c2 as u128);
        let s3: u64 = (t3 % 0x1_0000_0000_0000_0000u128) as u64;
        let c3: u64 = (t3 / 0x1_0000_0000_0000_0000u128) as u64;
        let s = U256 { w0: s0, w1: s1, w2: s2, w3: s3 };
        proof {
            lemma_fundamental_div_mod(t0 as int, p64() as int);
            lemma_fundamental_div_mod(t1 as int, p64() as int);
            lemma_fundamental_div_mod(t2 as int, p64() as int);
            lemma_fundamental_div_mod(t3 as int, p64() as int);
            assert(self@ + other@ == s@ + c3 * p256()) by (nonlinear_arith)
                requires
                    t0 == c0 * p64() + s0,
                    t0 == self.w0 + other.w0,
                    t1 == c1 * p64() + s1,
                    t1 == self.w1 + other.w1 + c0,
                    t2 == c2 * p64() + s2,
                    t2 == self.w2 + other.w2 + c1,
                    t3 == c3 * p64() + s3,
                    t3 == self.w3 + other.w3 + c2,
                    self@ == self.w0 + self.w1 * p64() + self.w2 * p128() + self.w3 * p192(),
                    other@ == other.w0 + other.w1 * p64() + other.w2 * p128() + other.w3 * p192(),
                    s@ == s0 + s1 * p64() + s2 * p128() + s3 * p192(),
            ;
            s.lemma_bound();
            if c3 == 0 {
                vstd::arithmetic::mul::lemma_mul_by_zero_is_zero(p256() as int);
            }
            if c3 != 0 {
                assert(c3 * p256() >= p256()) by (nonlinear_arith)
                    requires
                        c3 >= 1,
                ;
            }
        }
        if c3 == 0 {
            Some(s)
        } else {
            None
        }
    }

    /// The difference; `carry_in` lends the minuend an extra 2^256, and the
    /// result must lie below 2^256.
    pub fn sub_with_carry(&self, other: &U256, carry_in: bool) -> (r: U256)
        requires
            (if carry_in { p256() as int } else { 0 }) + self@ - other@ >= 0,
            (if carry_in { p256() as int } else { 0 }) + self@ - other@ < p256(),
        ensures
            r@ == (if carry_in { p256() as int } else { 0 }) + self@ - other@,
    {
        let t0: u128 = 0x1_0000_0000_0000_0000u128 + (self.w0 as u128) - (other.w0 as u128);
        let s0: u64 = (t0 % 0x1_0000_0000_0000_0000u128) as u64;
        let b0: u64 = 1 - ((t0 / 0x1_0000_0000_0000_0000u128) as u64);
        let t1: u128 = 0x1_0000_0000_0000_0000u128 + (self.w1 as u128) - (other.w1 as u128) - (b0
            as u128);
        let s1: u64 = (t1 % 0x1_0000_0000_0000_0000u128) as u64;
        let b1: u64 = 1 - ((t1 / 0x1_0000_0000_0000_0000u128) as u64);
        let t2: u128 = 0x1_0000_0000_0000_0000u128 + (self.w2 as u128) - (other.w2 as u128) - (b1
            as u128);
        let s2: u64 = (t2 % 0x1_0000_0000_0000_0000u128) as u64;
        let b2: u64 = 1 - ((t2 / 0x1_0000_0000_0000_0000u128) as u64);
        let t3: u128 = 0x1_0000_0000_0000_0000u128 + (self.w3 as u128) - (other.w3 as u128) - (b2
            as u128);
        let s3: u64 = (t3 % 0x1_0000_0000_0000_0000u128) as u64;
        let b3: u64 = 1 - ((t3 / 0x1_0000_0000_0000_0000u128) as u64);
        let s = U256 { w0: s0, w1: s1, w2: s2, w3: s3 };
        proof {
            lemma_fundamental_div_mod(t0 as int, p64() as int);
            lemma_fundamental_div_mod(t1 as int, p64() as int);
            lemma_fundamental_div_mod(t2 as int, p64() as int);
            lemma_fundamental_div_mod(t3 as int, p64() as int);
            assert(self@ - other@ == s@ - b3 * p256()) by (nonlinear_arith)
                requires
                    t0 == (1 - b0) * p64() + s0,
                    t0 == p64() + self.w0 - other.w0,
                    t1 == (1 - b1) * p64() + s1,
                    t1 == p64() + self.w1 - other.w1 - b0,
                    t2 == (1 - b2) * p64() + s2,
                    t2 == p64() + self.w2 - other.w2 - b1,
                    t3 == (1 - b3) * p64() + s3,
                    t3 == p64() + self.w3 - other.w3 - b2,
                    self@ == self.w0 + self.w1 * p64() + self.w2 * p128() + self.w3 * p192(),
                    other@ == other.w0 + other.w1 * p64() + other.w2 * p128() + other.w3 * p192(),
                    s@ == s0 + s1 * p64() + s2 * p128() + s3 * p192(),
            ;
            s.lemma_bound();
            if b3 == 0 {
                vstd::arithmetic::mul::lemma_mul_by_zero_is_zero(p256() as int);
            } else {
                assert(b3 * p256() == p256()) by (nonlinear_arith)
                    requires
                        b3 == 1,
                ;
            }
        }
        s
    }

    /// Twice the value; the returned flag is the bit shifted out at the top.
    /// The low bit of the result is always clear.
    pub fn double_with_carry(&self) -> (r: (U256, u64))
        ensures
            2 * self@ == r.1 * p256() + r.0@,
            r.1 <= 1,
            r.0.w0 % 2 == 0,
    {
        let h0: u64 = self.w0 / 0x8000_0000_0000_0000;
        let h1: u64 = self.w1 / 0x8000_0000_0000_0000;
        let h2: u64 = self.w2 / 0x8000_0000_0000_0000;
        let h3: u64 = self.w3 / 0x8000_0000_0000_0000;
        let o0: u64 = (self.w0 % 0x8000_0000_0000_0000) * 2;
        let o1: u64 = (self.w1 % 0x8000_0000_0000_0000) * 2 + h0;
        let o2: u64 = (self.w2 % 0x8000_0000_0000_0000) * 2 + h1;
        let o3: u64 = (self.w3 % 0x8000_0000_0000_0000) * 2 + h2;
        let o = U256 { w0: o0, w1: o1, w2: o2, w3: o3 };
        proof {
            lemma_fundamental_div_mod(self.w0 as int, 0x8000_0000_0000_0000);
            lemma_fundamental_div_mod(self.w1 as int, 0x8000_0000_0000_0000);
            lemma_fundamental_div_mod(self.w2 as int, 0x8000_0000_0000_0000);
            lemma_fundamental_div_mod(self.w3 as int, 0x8000_0000_0000_0000);
            assert(2 * self@ == h3 * p256() + o@) by (nonlinear_arith)
                requires
                    o0 == (self.w0 - h0 * 0x8000_0000_0000_0000) * 2,
                    o1 == (self.w1 - h1 * 0x8000_0000_0000_0000) * 2 + h0,
                    o2 == (self.w2 - h2 * 0x8000_0000_0000_0000) * 2 + h1,
                    o3 == (self.w3 - h3 * 0x8000_0000_0000_0000) * 2 + h2,
                    self@ == self.w0 + self.w1 * p64() + self.w2 * p128() + self.w3 * p192(),
                    o@ == o0 + o1 * p64() + o2 * p128() + o3 * p192(),
            ;
            if h3 == 0 {
                vstd::arithmetic::mul::lemma_mul_by_zero_is_zero(p256() as int);
            } else {
                assert(h3 * p256() == p256()) by (nonlinear_arith)
                    requires
                        h3 == 1,
                ;
            }
            assert(o0 % 2 == 0) by (nonlinear_arith)
                requires
                    o0 == (self.w0 % 0x8000_0000_0000_0000) * 2,
            ;
        }
        (o, h3)
    }

    /// The quotient and remainder of division by `other`.
    pub fn div_rem(&self, other: &U256) -> (r: (U256, U256))
        requires
            other@ > 0,
        ensures
            r.0@ == self@ / other@,
            r.1@ == self@ % other@,
            self@ == r.0@ * other@ + r.1@,
    {
        let mut x = *self;
        let mut q = U256::zero();
        let mut rem = U256::zero();
        let mut i: usize = 256;
        proof {
            lemma_pow2_limbs();
            self.lemma_bound();
            lemma_pow2_pos(256);
            lemma_small_mod(self@, pow2(256));
            lemma_basic_div(self@ as int, pow2(256) as int);
            lemma2_to64();
            lemma_bit_mul(0, other@ as int);
            other.lemma_bound();
            vstd::arithmetic::mul::lemma_mul_basics((self@ % pow2(256)) as int);
        }
        while i > 0
            invariant
                other@ > 0,
                other@ < p256(),
                i <= 256,
                x@ == (self@ % pow2(i as nat)) * pow2((256 - i) as nat),
                q@ * other@ + rem@ == self@ / pow2(i as nat),
                rem@ < other@,
                q@ < pow2((256 - i) as nat),
            decreases i,
        {
            let ghost i0 = i as nat;
            let ghost j = (i0 - 1) as nat;
            let ghost sv = self@ / pow2(i0);
            let xd = x.double_with_carry();
            let bx: u64 = xd.1;
            let rd = rem.double_with_carry();
            let r3 = rd.0.with_low_bit(bx);
            let qd = q.double_with_carry();
            proof {
                lemma_pow2_limbs();
                xd.0.lemma_bound();
                lemma_shift_step(self@, i0, x@, xd.0@, bx as nat);
                lemma_quot_step(self@, i0);
                // the doubled quotient cannot carry out
                lemma_pow2_unfold((257 - i0) as nat);
                if 257 - i0 < 256 {
                    lemma_pow2_strictly_increases((257 - i0) as nat, 256);
                }
                lemma_bit_mul(qd.1 as nat, p256() as int);
                assert(qd.1 == 0);
                lemma_bit_mul(rd.1 as nat, p256() as int);
                lemma_bit_mul(xd.1 as nat, p256() as int);
            }
            let ghost v2: int = 2 * rem@ + bx;
            proof {
                assert(r3@ + rd.1 * p256() == v2);
                assert(v2 <= 2 * other@ - 1);
            }
            let qbit: u64;
            let rn: U256;
            if rd.1 == 1 {
                rn = r3.sub_with_carry(other, true);
                qbit = 1;
            } else if r3.ge(other) {
                rn = r3.sub_with_carry(other, false);
                qbit = 1;
            } else {
                rn = r3;
                qbit = 0;
            }
            let qn = qd.0.with_low_bit(qbit);
            proof {
                assert(rn@ == v2 - qbit * other@ && rn@ < other@) by (nonlinear_arith)
                    requires
                        qbit == 1 ==> rn@ == v2 - other@,
                        qbit == 0 ==> rn@ == v2 && v2 < other@,
                        qbit <= 1,
                        v2 >= 0,
                        v2 <= 2 * other@ - 1,
                        other@ > 0,
                ;
                assert(qn@ * other@ + rn@ == self@ / pow2(j)) by (nonlinear_arith)
                    requires
                        qn@ == 2 * q@ + qbit,
                        rn@ == v2 - qbit * other@,
                        v2 == 2 * rem@ + bx,
                        q@ * other@ + rem@ == sv,
                        self@ / pow2(j) == 2 * sv + bx,
                ;
                // the quotient stays below the count of bits processed so far
                lemma_pow2_unfold((256 - j) as nat);
            }
            x = xd.0;
            rem = rn;
            q = qn;
            i = i - 1;
        }
        proof {
            lemma2_to64();
            lemma_div_basics(self@ as int);
            lemma_fundamental_div_mod_converse(self@ as int, other@ as int, q@ as int, rem@ as int);
        }
        (q, rem)
    }

    /// The 32 bytes of the value, most significant first.
    #[verifier::rlimit(60)]
    pub fn to_be_bytes(&self) -> (r: Vec<u8>)
        ensures
            r@ == u256_be_bytes(*self),
            r@.len() == 32,
    {
        let mut r: Vec<u8> = Vec::new();
        push_u64_be(&mut r, self.w3);
        push_u64_be(&mut r, self.w2);
        push_u64_be(&mut r, self.w1);
        push_u64_be(&mut r, self.w0);
        proof {
            assert(r@ =~= u256_be_bytes(*self));
        }
        r
    }

    /// The value with `bit` added into the (clear) lowest bit.
    pub fn with_low_bit(&self, bit: u64) -> (r: U256)
        requires
            self.w0 % 2 == 0,
            bit <= 1,
        ensures
            r@ == self@ + bit,
            r.w1 == self.w1 && r.w2 == self.w2 && r.w3 == self.w3,
    {
        U256 { w0: self.w0 + bit, w1: self.w1, w2: self.w2, w3: self.w3 }
    }
}

} // verus!
