//! Base-58 decoding of an on-chain identity into its 32 raw bytes.
//!
//! The decoded value is the number the digit string denotes in base 58,
//! written big-endian into 32 bytes, with one leading zero byte forced per
//! leading unit digit.

use vstd::prelude::*;
use vstd::arithmetic::power::pow;
use vstd::arithmetic::power::lemma_pow_adds;
use vstd::arithmetic::power::lemma_pow_positive;
use vstd::arithmetic::div_mod::lemma_fundamental_div_mod;
use vstd::arithmetic::div_mod::lemma_fundamental_div_mod_converse;
use vstd::arithmetic::div_mod::lemma_mod_multiples_vanish;
use vstd::arithmetic::div_mod::lemma_mul_mod_noop_right;
use vstd::arithmetic::div_mod::lemma_add_mod_noop;
use vstd::arithmetic::div_mod::lemma_small_mod;
use crate::text::{chars_of, find_from, find_in, lemma_find_from_some, lemma_find_from_none};

verus! {

/// The digit alphabet, unit first; ambiguous letters are absent.
pub open spec fn b58_alphabet() -> &'static str {
    "123456789ABCDEFGHJKLMNPQRSTUVWXYZabcdefghijkmnopqrstuvwxyz"
}

/// The value of one digit character: its alphabet position.
pub open spec fn spec_b58_digit(c: char) -> Option<int> {
    find_from(b58_alphabet()@, seq![c], 0)
}

/// The number denoted by the digit string from `i` on, accumulated onto
/// `acc`; nothing when a character is no digit.
pub open spec fn spec_b58_num(s: Seq<char>, i: int, acc: nat) -> Option<nat>
    decreases s.len() - i,
{
    if i < 0 || i >= s.len() {
        Some(acc)
    } else {
        match spec_b58_digit(s[i]) {
            None => None,
            Some(d) => spec_b58_num(s, i + 1, (acc * 58 + d) as nat),
        }
    }
}

/// Number of leading unit digits from `i` on.
pub open spec fn spec_lead_ones(s: Seq<char>, i: int) -> int
    decreases s.len() - i,
{
    if 0 <= i < s.len() && s[i] == '1' {
        1 + spec_lead_ones(s, i + 1)
    } else {
        0
    }
}

proof fn lemma_lead_shift(s: Seq<char>, i: int)
    requires
        0 <= i <= s.len(),
        forall|m: int| 0 <= m < i ==> s[m] == '1',
    ensures
        spec_lead_ones(s, 0) == i + spec_lead_ones(s, i),
    decreases i,
{
    if i > 0 {
        lemma_lead_shift_from(s, 0, i);
    }
}

proof fn lemma_lead_shift_from(s: Seq<char>, j: int, i: int)
    requires
        0 <= j <= i <= s.len(),
        forall|m: int| 0 <= m < i ==> s[m] == '1',
    ensures
        spec_lead_ones(s, j) == (i - j) + spec_lead_ones(s, i),
    decreases i - j,
{
    if j < i {
        lemma_lead_shift_from(s, j + 1, i);
    }
}

/// Little-endian value of the first `j` accumulator cells.
pub open spec fn le_pre(ds: Seq<u32>, j: int) -> int
    decreases j,
{
    if j <= 0 {
        0
    } else {
        le_pre(ds, j - 1) + ds[j - 1] * pow(256, (j - 1) as nat)
    }
}

/// Value of the cells from `j` to `n`, little-endian.
pub open spec fn le_hi(ds: Seq<u32>, j: int, n: int) -> int
    decreases n - j,
{
    if j < 0 || j >= n {
        0
    } else {
        ds[j] + 256 * le_hi(ds, j + 1, n)
    }
}

/// Every cell below `n` is one byte.
pub open spec fn cells_small(ds: Seq<u32>, n: int) -> bool {
    forall|m: int| 0 <= m < n ==> (#[trigger] ds[m]) < 256
}

proof fn lemma_le_pre_congruent(d1: Seq<u32>, d2: Seq<u32>, j: int)
    requires
        forall|m: int| 0 <= m < j ==> d1[m] == d2[m],
    ensures
        le_pre(d1, j) == le_pre(d2, j),
    decreases j,
{
    if j > 0 {
        lemma_le_pre_congruent(d1, d2, j - 1);
    }
}

proof fn lemma_le_pre_bound(ds: Seq<u32>, j: int)
    requires
        0 <= j <= ds.len(),
        cells_small(ds, j),
    ensures
        0 <= le_pre(ds, j) < pow(256, j as nat),
    decreases j,
{
    if j == 0 {
        assert(pow(256, 0) == 1) by {
            vstd::arithmetic::power::lemma_pow0(256);
        }
    } else {
        lemma_le_pre_bound(ds, j - 1);
        let p = pow(256, (j - 1) as nat);
        lemma_pow_positive(256, (j - 1) as nat);
        assert(pow(256, j as nat) == 256 * p) by {
            lemma_pow_adds(256, 1, (j - 1) as nat);
            vstd::arithmetic::power::lemma_pow1(256);
        }
        assert(ds[j - 1] * p <= 255 * p) by (nonlinear_arith)
            requires
                ds[j - 1] < 256,
                p > 0,
        ;
        assert(ds[j - 1] * p >= 0) by (nonlinear_arith)
            requires
                ds[j - 1] >= 0,
                p > 0,
        ;
        assert(le_pre(ds, j - 1) + 255 * p < 256 * p) by (nonlinear_arith)
            requires
                le_pre(ds, j - 1) < p,
        ;
    }
}

proof fn lemma_le_hi_nonneg(ds: Seq<u32>, j: int, n: int)
    ensures
        le_hi(ds, j, n) >= 0,
    decreases n - j,
{
    if 0 <= j < n {
        lemma_le_hi_nonneg(ds, j + 1, n);
    }
}

proof fn lemma_le_split(ds: Seq<u32>, j: int, n: int)
    requires
        0 <= j <= n <= ds.len(),
    ensures
        le_pre(ds, n) == le_pre(ds, j) + pow(256, j as nat) * le_hi(ds, j, n),
    decreases n - j,
{
    let p = pow(256, j as nat);
    lemma_pow_positive(256, j as nat);
    if j == n {
        assert(p * 0 == 0) by (nonlinear_arith);
    } else {
        lemma_le_split(ds, j + 1, n);
        assert(pow(256, (j + 1) as nat) == p * 256) by {
            lemma_pow_adds(256, j as nat, 1);
            vstd::arithmetic::power::lemma_pow1(256);
        }
        assert(le_pre(ds, j + 1) == le_pre(ds, j) + ds[j] * p);
        assert(le_pre(ds, j) + ds[j] * p + (p * 256) * le_hi(ds, j + 1, n) == le_pre(ds, j) + p * (
        ds[j] + 256 * le_hi(ds, j + 1, n))) by (nonlinear_arith);
    }
}

/// Digit extraction: a small-cell accumulator holding `v` stores, in cell
/// `j`, exactly the `j`-th base-256 digit of `v`.
proof fn lemma_cell_is_byte(ds: Seq<u32>, j: int, n: int)
    requires
        0 <= j < n <= ds.len(),
        cells_small(ds, n),
    ensures
        ds[j] as int == (le_pre(ds, n) / pow(256, j as nat)) % 256,
{
    let v = le_pre(ds, n);
    let p = pow(256, j as nat);
    lemma_pow_positive(256, j as nat);
    lemma_le_split(ds, j, n);
    lemma_le_pre_bound(ds, j);
    let hi = le_hi(ds, j, n);
    lemma_le_hi_nonneg(ds, j + 1, n);
    assert(v == hi * p + le_pre(ds, j)) by (nonlinear_arith)
        requires
            v == le_pre(ds, j) + p * hi,
    ;
    lemma_fundamental_div_mod_converse(v, p, hi, le_pre(ds, j));
    assert(v / p == hi);
    assert(hi == (256 * le_hi(ds, j + 1, n)) + ds[j]) by (nonlinear_arith)
        requires
            hi == ds[j] + 256 * le_hi(ds, j + 1, n),
    ;
    lemma_fundamental_div_mod_converse(hi, 256, le_hi(ds, j + 1, n), ds[j] as int);
}

/// Truncation compatibility: any base-256 digit below the accumulator width
/// reads the same from the number and from its width-bounded remainder.
proof fn lemma_byte_mod_truncate(x: int, j: int)
    requires
        x >= 0,
        0 <= j < 44,
    ensures
        ((x % pow(256, 44)) / pow(256, j as nat)) % 256 == (x / pow(256, j as nat)) % 256,
{
    let m44 = pow(256, 44);
    let p = pow(256, j as nat);
    lemma_pow_positive(256, 44);
    lemma_pow_positive(256, j as nat);
    lemma_fundamental_div_mod(x, m44);
    let q = x / m44;
    let r = x % m44;
    vstd::arithmetic::div_mod::lemma_mod_bound(x, m44);
    vstd::arithmetic::div_mod::lemma_div_pos_is_pos(x, m44);
    lemma_fundamental_div_mod(r, p);
    let q2 = r / p;
    let r2 = r % p;
    vstd::arithmetic::div_mod::lemma_mod_bound(r, p);
    vstd::arithmetic::div_mod::lemma_div_pos_is_pos(r, p);
    let w = pow(256, (44 - j) as nat);
    assert(m44 == p * w) by {
        lemma_pow_adds(256, j as nat, (44 - j) as nat);
    }
    assert(x == (q * w + q2) * p + r2) by (nonlinear_arith)
        requires
            x == q * (p * w) + r,
            r == q2 * p + r2,
    ;
    lemma_pow_positive(256, (44 - j) as nat);
    assert(q * w + q2 >= 0) by (nonlinear_arith)
        requires
            q >= 0,
            w > 0,
            q2 >= 0,
    ;
    lemma_fundamental_div_mod_converse(x, p, q * w + q2, r2);
    assert(x / p == q * w + q2);
    let w1 = pow(256, (43 - j) as nat);
    assert(w == 256 * w1) by {
        lemma_pow_adds(256, 1, (43 - j) as nat);
        vstd::arithmetic::power::lemma_pow1(256);
    }
    assert(q * w + q2 == 256 * (q * w1) + q2) by (nonlinear_arith)
        requires
            w == 256 * w1,
    ;
    lemma_mod_multiples_vanish(q * w1, q2, 256);
}

fn b58_digit_of(alpha: &Vec<char>, c: char) -> (r: Option<u32>)
    requires
        alpha@ == b58_alphabet()@,
    ensures
        match r {
            Some(d) => spec_b58_digit(c) == Some(d as int) && d < 58,
            None => spec_b58_digit(c) is None,
        },
{
    let mut single: Vec<char> = Vec::new();
    single.push(c);
    assert(single@ =~= seq![c]);
    proof {
        reveal_strlit("123456789ABCDEFGHJKLMNPQRSTUVWXYZabcdefghijkmnopqrstuvwxyz");
    }
    match find_in(alpha, &single, 0) {
        Some(j) => {
            proof {
                lemma_find_from_some(alpha@, seq![c], 0);
            }
            Some(j as u32)
        },
        None => None,
    }
}

/// Multiplies the accumulator by 58 and adds a digit, carrying in base 256;
/// the overflowing top carry falls off the 44-cell width.
fn mul58_add(scratch: &mut Vec<u32>, d: u32)
    requires
        old(scratch)@.len() == 44,
        cells_small(old(scratch)@, 44),
        d < 58,
    ensures
        final(scratch)@.len() == 44,
        cells_small(final(scratch)@, 44),
        le_pre(final(scratch)@, 44) == (58 * le_pre(old(scratch)@, 44) + d) % pow(256, 44),
{
    let ghost orig = scratch@;
    let mut val: u64 = d as u64;
    let mut j: usize = 0;
    proof {
        vstd::arithmetic::power::lemma_pow0(256);
    }
    while j < 44
        invariant
            j <= 44,
            scratch@.len() == 44,
            val < 58 * 256,
            forall|m: int| j <= m < 44 ==> scratch@[m] == orig[m],
            forall|m: int| 0 <= m < j ==> (#[trigger] scratch@[m]) < 256,
            cells_small(orig, 44),
            le_pre(scratch@, j as int) + (val as int) * pow(256, j as nat) == d + 58 * le_pre(
                orig,
                j as int,
            ),
        decreases 44 - j,
    {
        let ghost pre = scratch@;
        let ghost pj = pow(256, j as nat);
        let ghost val0 = val as int;
        let cell = scratch[j];
        let v2: u64 = val + (cell as u64) * 58;
        let newcell: u32 = (v2 % 256) as u32;
        scratch.set(j, newcell);
        val = v2 / 256;
        proof {
            lemma_pow_positive(256, j as nat);
            assert(pow(256, (j + 1) as nat) == pj * 256) by {
                lemma_pow_adds(256, j as nat, 1);
                vstd::arithmetic::power::lemma_pow1(256);
            }
            lemma_le_pre_congruent(scratch@, pre, j as int);
            assert(le_pre(scratch@, j + 1) == le_pre(pre, j as int) + (v2 % 256) * pj);
            assert((v2 % 256) + 256 * (v2 / 256) == v2) by {
                lemma_fundamental_div_mod(v2 as int, 256);
            }
            assert(cell == orig[j as int]);
            assert(le_pre(orig, j + 1) == le_pre(orig, j as int) + orig[j as int] * pj);
            assert(le_pre(pre, j as int) + (v2 as int) * pj == d + 58 * le_pre(orig, j + 1))
                by (nonlinear_arith)
                requires
                    le_pre(pre, j as int) + val0 * pj == d + 58 * le_pre(orig, j as int),
                    v2 == val0 + (cell as int) * 58,
                    cell == orig[j as int],
                    le_pre(orig, j + 1) == le_pre(orig, j as int) + orig[j as int] * pj,
            ;
            assert(le_pre(scratch@, j + 1) + ((v2 / 256) as int) * (pj * 256) == le_pre(
                pre,
                j as int,
            ) + (v2 as int) * pj) by (nonlinear_arith)
                requires
                    le_pre(scratch@, j + 1) == le_pre(pre, j as int) + (v2 % 256) * pj,
                    (v2 % 256) + 256 * (v2 / 256) == v2,
            ;
        }
        j += 1;
    }
    proof {
        lemma_le_pre_bound(scratch@, 44);
        lemma_pow_positive(256, 44);
        assert((58 * le_pre(orig, 44) + d) == (val as int) * pow(256, 44) + le_pre(scratch@, 44))
            by (nonlinear_arith)
            requires
                le_pre(scratch@, 44) + (val as int) * pow(256, 44) == d + 58 * le_pre(orig, 44),
        ;
        lemma_fundamental_div_mod_converse(
            58 * le_pre(orig, 44) + d,
            pow(256, 44),
            val as int,
            le_pre(scratch@, 44),
        );
    }
}

/// Decodes a base-58 digit string into the 32 big-endian bytes of its value,
/// with one leading zero byte forced per leading unit digit; nothing when a
/// character is no digit.
pub fn bs58_decode(s: &str) -> (r: Option<Vec<u8>>)
    ensures
        match r {
            Some(b) => {
                &&& spec_b58_num(s@, 0, 0) is Some
                &&& b@.len() == 32
                &&& forall|k: int|
                    0 <= k < 32 ==> (#[trigger] b@[k]) as int == (if k < spec_lead_ones(s@, 0) {
                        0
                    } else {
                        ((spec_b58_num(s@, 0, 0)->Some_0 as int) / pow(256, (31 - k) as nat)) % 256
                    })
            },
            None => spec_b58_num(s@, 0, 0) is None,
        },
{
    let v = chars_of(s);
    let n = v.len();
    let alpha = chars_of("123456789ABCDEFGHJKLMNPQRSTUVWXYZabcdefghijkmnopqrstuvwxyz");
    let mut scratch: Vec<u32> = Vec::new();
    let mut z: usize = 0;
    while z < 44
        invariant
            z <= 44,
            scratch@.len() == z,
            forall|m: int| 0 <= m < z ==> (#[trigger] scratch@[m]) == 0,
        decreases 44 - z,
    {
        scratch.push(0);
        z += 1;
    }
    let ghost mut nk: nat = 0;
    proof {
        lemma_le_pre_zero(scratch@, 44);
        lemma_pow_positive(256, 44);
        lemma_small_mod(0, pow(256, 44) as nat);
    }
    let mut i: usize = 0;
    while i < n
        invariant
            i <= n,
            n == v@.len(),
            v@ == s@,
            alpha@ == b58_alphabet()@,
            scratch@.len() == 44,
            cells_small(scratch@, 44),
            spec_b58_num(s@, 0, 0) == spec_b58_num(s@, i as int, nk),
            le_pre(scratch@, 44) == (nk as int) % pow(256, 44),
        decreases n - i,
    {
        let c = v[i];
        match b58_digit_of(&alpha, c) {
            None => {
                return None;
            },
            Some(d) => {
                let ghost old_le = le_pre(scratch@, 44);
                let ghost nk0 = nk;
                mul58_add(&mut scratch, d);
                proof {
                    let m44 = pow(256, 44);
                    lemma_pow_positive(256, 44);
                    assert(m44 >= 256) by {
                        vstd::arithmetic::power::lemma_pow1(256);
                        vstd::arithmetic::power::lemma_pow_increases(256, 1, 44);
                    }
                    lemma_mul_mod_noop_right(58, nk0 as int, m44);
                    lemma_small_mod(d as nat, m44 as nat);
                    lemma_add_mod_noop(58 * ((nk0 as int) % m44), d as int, m44);
                    lemma_add_mod_noop(58 * (nk0 as int), d as int, m44);
                    nk = (nk0 * 58 + d) as nat;
                    assert(le_pre(scratch@, 44) == (58 * old_le + d) % m44);
                    assert(old_le == (nk0 as int) % m44);
                    assert(le_pre(scratch@, 44) == (nk as int) % m44);
                    assert(spec_b58_num(s@, i as int, nk0) == spec_b58_num(s@, i + 1, nk));
                }
            },
        }
        i += 1;
    }
    let ghost num = nk;
    assert(spec_b58_num(s@, 0, 0) == Some(num));
    // Big-endian extraction of the low 32 bytes.
    let mut out: Vec<u8> = Vec::new();
    let mut k: usize = 0;
    while k < 32
        invariant
            k <= 32,
            out@.len() == k,
            scratch@.len() == 44,
            cells_small(scratch@, 44),
            le_pre(scratch@, 44) == (num as int) % pow(256, 44),
            forall|m: int| 0 <= m < k ==> (#[trigger] out@[m]) as int == scratch@[31 - m] as int,
        decreases 32 - k,
    {
        let cell = scratch[31 - k];
        out.push(cell as u8);
        k += 1;
    }
    // Leading unit digits force leading zero bytes.
    let mut lead: usize = 0;
    while lead < n && v[lead] == '1'
        invariant
            lead <= n,
            n == v@.len(),
            v@ == s@,
            forall|m: int| 0 <= m < lead ==> s@[m] == '1',
        decreases n - lead,
    {
        lead += 1;
    }
    proof {
        lemma_lead_shift(s@, lead as int);
        assert(spec_lead_ones(s@, lead as int) == 0);
        assert(spec_lead_ones(s@, 0) == lead);
    }
    let ghost fixed = out@;
    let mut m: usize = 0;
    while m < lead && m < 32
        invariant
            m <= 32,
            m <= lead,
            out@.len() == 32,
            fixed.len() == 32,
            forall|t: int| 0 <= t < m ==> (#[trigger] out@[t]) == 0,
            forall|t: int| m <= t < 32 ==> (#[trigger] out@[t]) == fixed[t],
        decreases 32 - m,
    {
        out.set(m, 0);
        m += 1;
    }
    assert(m == lead || m == 32);
    proof {
        assert forall|k2: int| 0 <= k2 < 32 implies (#[trigger] out@[k2]) as int == (if k2
            < spec_lead_ones(s@, 0) {
            0int
        } else {
            ((num as int) / pow(256, (31 - k2) as nat)) % 256
        }) by {
            if k2 < m {
                assert(out@[k2] == 0);
                assert(k2 < lead);
            } else {
                assert(m == lead || m == 32);
                assert(k2 >= lead);
                assert(out@[k2] == fixed[k2]);
                assert(fixed[k2] as int == scratch@[31 - k2] as int);
                lemma_cell_is_byte(scratch@, 31 - k2, 44);
                lemma_byte_mod_truncate(num as int, 31 - k2);
            }
        }
    }
    Some(out)
}

proof fn lemma_le_pre_zero(ds: Seq<u32>, j: int)
    requires
        0 <= j <= ds.len(),
        forall|m: int| 0 <= m < j ==> (#[trigger] ds[m]) == 0,
    ensures
        le_pre(ds, j) == 0,
    decreases j,
{
    if j > 0 {
        lemma_le_pre_zero(ds, j - 1);
        lemma_pow_positive(256, (j - 1) as nat);
        assert(ds[j - 1] * pow(256, (j - 1) as nat) == 0) by (nonlinear_arith)
            requires
                ds[j - 1] == 0,
        ;
    }
}

} // verus!
