//! Unsigned 256-bit integers: decimal parsing into four 64-bit limbs and
//! their 32-byte little-endian form.

use vstd::prelude::*;
use crate::bcs_codec::{le_bytes, bcs_encode_u64, lemma_le_bytes_len};
use crate::decimal::{
    all_digits, decimal_value, is_digit, lemma_decimal_prefix_le, lemma_first_failure_unique,
    parse_error_message, prefix_fits, spec_parse_unsigned, unsigned_digits,
};
use crate::text::chars_of;

verus! {

/// 2^64.
pub open spec fn base() -> int {
    0x1_0000_0000_0000_0000
}

/// The largest 256-bit number.
pub open spec fn u256_max() -> nat {
    (base() * base() * base() * base() - 1) as nat
}

/// The number four 64-bit limbs stand for, least significant first.
pub open spec fn limbs_value(l: [u64; 4]) -> nat {
    (l[0] + l[1] * base() + l[2] * base() * base() + l[3] * base() * base() * base()) as nat
}

/// Multiplies the limbs by ten and adds `d`; reports overflow past 256 bits.
fn mul10_add(l: [u64; 4], d: u64) -> (r: ([u64; 4], bool))
    requires
        d < 10,
    ensures
        r.1 <==> limbs_value(l) * 10 + d > u256_max(),
        !r.1 ==> limbs_value(r.0) == limbs_value(l) * 10 + d,
{
    let t0: u128 = (l[0] as u128) * 10 + (d as u128);
    let n0: u64 = (t0 % 0x1_0000_0000_0000_0000) as u64;
    let c0: u128 = t0 / 0x1_0000_0000_0000_0000;
    assert(c0 < 10) by (nonlinear_arith)
        requires
            c0 == t0 / 0x1_0000_0000_0000_0000,
            t0 < 10 * 0x1_0000_0000_0000_0000,
    ;
    let t1: u128 = (l[1] as u128) * 10 + c0;
    let n1: u64 = (t1 % 0x1_0000_0000_0000_0000) as u64;
    let c1: u128 = t1 / 0x1_0000_0000_0000_0000;
    assert(c1 < 10) by (nonlinear_arith)
        requires
            c1 == t1 / 0x1_0000_0000_0000_0000,
            t1 < 10 * 0x1_0000_0000_0000_0000,
    ;
    let t2: u128 = (l[2] as u128) * 10 + c1;
    let n2: u64 = (t2 % 0x1_0000_0000_0000_0000) as u64;
    let c2: u128 = t2 / 0x1_0000_0000_0000_0000;
    assert(c2 < 10) by (nonlinear_arith)
        requires
            c2 == t2 / 0x1_0000_0000_0000_0000,
            t2 < 10 * 0x1_0000_0000_0000_0000,
    ;
    let t3: u128 = (l[3] as u128) * 10 + c2;
    let n3: u64 = (t3 % 0x1_0000_0000_0000_0000) as u64;
    let c3: u128 = t3 / 0x1_0000_0000_0000_0000;
    let r = [n0, n1, n2, n3];
    proof {
        let b = base();
        assert(t0 == n0 + c0 * b);
        assert(t1 == n1 + c1 * b);
        assert(t2 == n2 + c2 * b);
        assert(t3 == n3 + c3 * b);
        assert(r[0] == n0 && r[1] == n1 && r[2] == n2 && r[3] == n3);
        let v = limbs_value(l);
        let w = n0 + n1 * b + n2 * b * b + n3 * b * b * b;
        assert(w + c3 * b * b * b * b == v * 10 + d) by (nonlinear_arith)
            requires
                t0 == l[0] * 10 + d,
                t1 == l[1] * 10 + c0,
                t2 == l[2] * 10 + c1,
                t3 == l[3] * 10 + c2,
                t0 == n0 + c0 * b,
                t1 == n1 + c1 * b,
                t2 == n2 + c2 * b,
                t3 == n3 + c3 * b,
                v == l[0] + l[1] * b + l[2] * b * b + l[3] * b * b * b,
                w == n0 + n1 * b + n2 * b * b + n3 * b * b * b,
        ;
        assert(w <= u256_max()) by (nonlinear_arith)
            requires
                b == 0x1_0000_0000_0000_0000,
                0 <= n0 < b,
                0 <= n1 < b,
                0 <= n2 < b,
                0 <= n3 < b,
                w == n0 + n1 * b + n2 * b * b + n3 * b * b * b,
        ;
        assert(b * b * b * b == u256_max() + 1) by (nonlinear_arith)
            requires
                b == 0x1_0000_0000_0000_0000,
        ;
        assert(w >= 0) by (nonlinear_arith)
            requires
                b == 0x1_0000_0000_0000_0000,
                0 <= n0,
                0 <= n1,
                0 <= n2,
                0 <= n3,
                w == n0 + n1 * b + n2 * b * b + n3 * b * b * b,
        ;
        if c3 > 0 {
            assert(c3 * b * b * b * b >= b * b * b * b) by (nonlinear_arith)
                requires
                    c3 >= 1,
                    b > 0,
            ;
        }
        assert(limbs_value(r) == w);
    }
    (r, c3 != 0)
}

/// Splitting little-endian bytes: the low `n` bytes of `a + 256^n * b`
/// are those of `a`, followed by those of `b`.
pub proof fn lemma_le_bytes_split(a: nat, b: nat, n: nat, m: nat)
    requires
        a < vstd::arithmetic::power::pow(256, n),
    ensures
        le_bytes((a + vstd::arithmetic::power::pow(256, n) * b) as nat, n + m) == le_bytes(a, n)
            + le_bytes(b, m),
    decreases n,
{
    reveal(vstd::arithmetic::power::pow);
    let p = vstd::arithmetic::power::pow(256, n);
    if n == 0 {
        assert(a == 0);
        assert(le_bytes(a, 0) =~= Seq::<u8>::empty());
        assert(a + p * b == b);
        assert(le_bytes(b, m) =~= Seq::<u8>::empty() + le_bytes(b, m));
    } else {
        let q = vstd::arithmetic::power::pow(256, (n - 1) as nat);
        assert(p == 256 * q);
        vstd::arithmetic::power::lemma_pow_positive(256, (n - 1) as nat);
        assert(q * b >= 0) by (nonlinear_arith)
            requires
                q > 0,
        ;
        let v = (a + p * b) as nat;
        assert(v == a + 256 * (q * b)) by (nonlinear_arith)
            requires
                v == a + p * b,
                p == 256 * q,
        ;
        vstd::arithmetic::div_mod::lemma_fundamental_div_mod(a as int, 256);
        assert(v % 256 == a % 256 && v / 256 == a / 256 + q * b) by {
            vstd::arithmetic::div_mod::lemma_mod_multiples_vanish((q * b) as int, a as int, 256);
            assert(v == (a / 256 + q * b) * 256 + a % 256) by (nonlinear_arith)
                requires
                    v == a + 256 * (q * b),
                    a == 256 * (a / 256) + a % 256,
            ;
            vstd::arithmetic::div_mod::lemma_fundamental_div_mod_converse(
                v as int,
                256,
                (a / 256 + q * b) as int,
                (a % 256) as int,
            );
        }
        assert(a / 256 < q) by (nonlinear_arith)
            requires
                a < 256 * q,
                a == 256 * (a / 256) + a % 256,
                0 <= a % 256,
        ;
        lemma_le_bytes_split(a / 256, b, (n - 1) as nat, m);
        assert((n + m - 1) as nat == (n - 1) as nat + m);
        assert(le_bytes(v, n + m) =~= seq![(v % 256) as u8] + le_bytes((v / 256) as nat, (n + m - 1) as nat));
        assert(le_bytes(a, n) =~= seq![(a % 256) as u8] + le_bytes(a / 256, (n - 1) as nat));
        assert(le_bytes(v, n + m) =~= le_bytes(a, n) + le_bytes(b, m));
    }
}

/// The 32 little-endian bytes of the number four limbs stand for.
fn limbs_to_le_bytes(l: [u64; 4]) -> (r: Vec<u8>)
    ensures
        r@ == le_bytes(limbs_value(l), 32),
{
    let mut out: Vec<u8> = Vec::new();
    let mut i: usize = 0;
    while i < 4
        invariant
            i <= 4,
            out@.len() == 8 * i,
            forall|k: int| 0 <= k < i ==> out@.subrange(8 * k, 8 * k + 8) == le_bytes(#[trigger] l[k] as nat, 8),
        decreases 4 - i,
    {
        let b = match bcs_encode_u64(l[i]) {
            Ok(b) => b,
            Err(_) => Vec::new(),
        };
        proof {
            lemma_le_bytes_len(l[i as int] as nat, 8);
        }
        let ghost before = out@;
        let mut bb = b;
        out.append(&mut bb);
        proof {
            assert forall|k: int| 0 <= k < i + 1 implies out@.subrange(8 * k, 8 * k + 8) == le_bytes(
                #[trigger] l[k] as nat,
                8,
            ) by {
                if k < i {
                    assert(out@.subrange(8 * k, 8 * k + 8) =~= before.subrange(8 * k, 8 * k + 8));
                } else {
                    assert(out@.subrange(8 * k, 8 * k + 8) =~= b@);
                }
            }
        }
        i = i + 1;
    }
    proof {
        let b = base();
        assert(vstd::arithmetic::power::pow(256, 8) == b) by {
            reveal_with_fuel(vstd::arithmetic::power::pow, 9);
        }
        assert(vstd::arithmetic::power::pow(256, 8) == b);
        let v3 = l[3] as nat;
        let v2 = (l[2] + b * l[3]) as nat;
        let v1 = (l[1] + b * v2) as nat;
        let v0 = (l[0] + b * v1) as nat;
        assert(v2 < b * b) by (nonlinear_arith)
            requires
                0 <= l[2] < b,
                0 <= l[3] < b,
                v2 == l[2] + b * l[3],
        ;
        assert(v1 < b * b * b) by (nonlinear_arith)
            requires
                0 <= l[1] < b,
                0 <= v2 < b * b,
                v1 == l[1] + b * v2,
        ;
        lemma_le_bytes_split(l[2] as nat, v3, 8, 8);
        assert(le_bytes(v2, 16) == le_bytes(l[2] as nat, 8) + le_bytes(v3, 8));
        lemma_le_bytes_split(l[1] as nat, v2, 8, 16);
        assert(le_bytes(v1, 24) == le_bytes(l[1] as nat, 8) + le_bytes(v2, 16));
        lemma_le_bytes_split(l[0] as nat, v1, 8, 24);
        assert(le_bytes(v0, 32) == le_bytes(l[0] as nat, 8) + le_bytes(v1, 24));
        let lv = limbs_value(l);
        assert(lv == l[0] + l[1] * b + l[2] * b * b + l[3] * b * b * b);
        assert(v0 == lv) by (nonlinear_arith)
            requires
                lv == l[0] + l[1] * b + l[2] * b * b + l[3] * b * b * b,
                v0 == l[0] + b * v1,
                v1 == l[1] + b * v2,
                v2 == l[2] + b * l[3],
        ;
        assert(out@ =~= out@.subrange(0, 8) + out@.subrange(8, 16) + out@.subrange(16, 24)
            + out@.subrange(24, 32));
        assert(out@.subrange(0, 8) == le_bytes(l[0] as nat, 8));
        assert(out@.subrange(8, 16) == le_bytes(l[1] as nat, 8));
        assert(out@.subrange(16, 24) == le_bytes(l[2] as nat, 8));
        assert(out@.subrange(24, 32) == le_bytes(l[3] as nat, 8));
    }
    out
}

/// Parses `s` as an unsigned 256-bit decimal integer, the way
/// `U256::from_str` does, and gives its 32 little-endian bytes. The error
/// carries the message of the failure.
pub fn parse_u256_le_bytes(s: &str) -> (r: Result<Vec<u8>, String>)
    ensures
        r is Ok <==> spec_parse_unsigned(s@, u256_max()) is Some,
        r matches Ok(b) ==> b@ == le_bytes(spec_parse_unsigned(s@, u256_max())->0, 32),
        r matches Err(m) ==> m@ == parse_error_message(s@, u256_max()),
{
    let cs = chars_of(s);
    let n = cs.len();
    if n == 0 {
        return Err(String::from_str("cannot parse integer from empty string"));
    }
    let start: usize = if cs[0] == '+' {
        1
    } else {
        0
    };
    if start == 1 && n == 1 {
        return Err(String::from_str("invalid digit found in string"));
    }
    let ghost d = unsigned_digits(s@);
    assert(d =~= cs@.subrange(start as int, n as int));
    let mut limbs: [u64; 4] = [0, 0, 0, 0];
    let mut i: usize = start;
    assert(limbs_value(limbs) == 0);
    while i < n
        invariant
            cs@ == s@,
            n == cs@.len(),
            start <= i <= n,
            start < n,
            d == cs@.subrange(start as int, n as int),
            d == unsigned_digits(s@),
            all_digits(cs@.subrange(start as int, i as int)),
            limbs_value(limbs) == decimal_value(cs@.subrange(start as int, i as int)),
            limbs_value(limbs) <= u256_max(),
            forall|j: int| 0 <= j < i - start ==> #[trigger] prefix_fits(d, j, u256_max()),
        decreases n - i,
    {
        let c = cs[i];
        let ghost pre = cs@.subrange(start as int, i as int);
        let ghost ext = cs@.subrange(start as int, i + 1);
        assert(ext.drop_last() =~= pre);
        assert(ext.last() == c);
        if !('0' <= c && c <= '9') {
            assert(d[(i - start) as int] == c);
            assert(!is_digit(d[(i - start) as int]));
            proof {
                let k = (i - start) as int;
                assert(d.subrange(0, k + 1)[k] == c);
                assert(!prefix_fits(d, k, u256_max()));
                lemma_first_failure_unique(d, k, u256_max());
            }
            return Err(String::from_str("invalid digit found in string"));
        }
        let x: u64 = ((c as u32) - ('0' as u32)) as u64;
        let (next, overflow) = mul10_add(limbs, x);
        if overflow {
            proof {
                if all_digits(d) {
                    assert(ext =~= d.subrange(0, (i + 1 - start) as int));
                    lemma_decimal_prefix_le(d, (i + 1 - start) as int);
                }
                let k = (i - start) as int;
                assert(ext =~= d.subrange(0, k + 1));
                assert(!prefix_fits(d, k, u256_max()));
                assert(d[k] == c);
                lemma_first_failure_unique(d, k, u256_max());
            }
            return Err(String::from_str("number too large to fit in target type"));
        }
        limbs = next;
        i = i + 1;
        proof {
            let k = (i - 1 - start) as int;
            assert(ext =~= d.subrange(0, k + 1));
            assert(prefix_fits(d, k, u256_max())) by {
                assert forall|j: int| 0 <= j < ext.len() implies is_digit(#[trigger] ext[j]) by {
                    if j < pre.len() {
                        assert(ext[j] == pre[j]);
                    }
                }
            }
        }
        assert(all_digits(cs@.subrange(start as int, i as int))) by {
            assert forall|j: int| 0 <= j < ext.len() implies is_digit(#[trigger] ext[j]) by {
                if j < pre.len() {
                    assert(ext[j] == pre[j]);
                }
            }
        }
    }
    assert(cs@.subrange(start as int, n as int) =~= d);
    Ok(limbs_to_le_bytes(limbs))
}

} // verus!
