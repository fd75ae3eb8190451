//! Verified decimal arithmetic on numeric strings.
//!
//! Amount values travel through the engine as decimal strings.  This module
//! parses them into a mantissa/scale pair (`value = mantissa / 10^scale`),
//! compares them, forms truncated quotients (for the offer quality), and
//! renders results back into canonical decimal strings.

use vstd::prelude::*;
use vstd::arithmetic::div_mod::{
    lemma_div_is_ordered, lemma_div_nonincreasing, lemma_fundamental_div_mod,
    lemma_fundamental_div_mod_converse, lemma_multiply_divide_lt,
};
use vstd::arithmetic::mul::{
    lemma_mul_inequality, lemma_mul_is_associative, lemma_mul_upper_bound,
};
use vstd::string::StrSliceExecFns;

verus! {

/// 10 to the `n`th power.
pub open spec fn pow10(n: nat) -> nat
    decreases n,
{
    if n == 0 {
        1
    } else {
        10 * pow10((n - 1) as nat)
    }
}

/// Largest number of fraction digits a decimal string may carry.
pub const SCALE_LIMIT: u32 = 18;

pub proof fn lemma_pow10_pos(n: nat)
    ensures
        pow10(n) >= 1,
    decreases n,
{
    if n > 0 {
        lemma_pow10_pos((n - 1) as nat);
    }
}

pub proof fn lemma_pow10_le(a: nat, b: nat)
    requires
        a <= b,
    ensures
        pow10(a) <= pow10(b),
    decreases b,
{
    if a < b {
        lemma_pow10_le(a, (b - 1) as nat);
        lemma_pow10_pos((b - 1) as nat);
    }
}

pub proof fn lemma_pow10_adds(a: nat, b: nat)
    ensures
        pow10(a + b) == pow10(a) * pow10(b),
    decreases a,
{
    if a == 0 {
        assert(pow10(0) == 1);
        assert(pow10(a) * pow10(b) == pow10(b));
    } else {
        lemma_pow10_adds((a - 1) as nat, b);
        assert(pow10(a + b) == 10 * pow10((a + b - 1) as nat));
        assert(pow10((a + b - 1) as nat) == pow10((a - 1) as nat) * pow10(b));
        lemma_mul_is_associative(10, pow10((a - 1) as nat) as int, pow10(b) as int);
        assert(10 * (pow10((a - 1) as nat) * pow10(b)) == (10 * pow10((a - 1) as nat)) * pow10(b));
        assert(pow10(a) == 10 * pow10((a - 1) as nat));
        assert(pow10(a + b) == pow10(a) * pow10(b)) by (nonlinear_arith)
            requires
                pow10(a + b) == 10 * (pow10((a - 1) as nat) * pow10(b)),
                pow10(a) == 10 * pow10((a - 1) as nat),
        {}
    }
}

/// The concrete powers the executable code leans on.
pub proof fn lemma_pow10_vals()
    ensures
        pow10(18) == 1_000_000_000_000_000_000,
        pow10(19) == 10_000_000_000_000_000_000,
        pow10(37) == pow10(18) * pow10(19),
        pow10(38) == pow10(19) * pow10(19),
        pow10(38) <= u128::MAX,
{
    reveal_with_fuel(pow10, 21);
    assert(pow10(18) == 1_000_000_000_000_000_000);
    assert(pow10(19) == 10_000_000_000_000_000_000);
    lemma_pow10_adds(18, 19);
    lemma_pow10_adds(19, 19);
}

/// Numeric value of a decimal digit character; 10 marks a non-digit.
pub open spec fn digit_val(c: char) -> nat {
    if c == '0' {
        0
    } else if c == '1' {
        1
    } else if c == '2' {
        2
    } else if c == '3' {
        3
    } else if c == '4' {
        4
    } else if c == '5' {
        5
    } else if c == '6' {
        6
    } else if c == '7' {
        7
    } else if c == '8' {
        8
    } else if c == '9' {
        9
    } else {
        10
    }
}

pub open spec fn is_digit_char(c: char) -> bool {
    digit_val(c) < 10
}

/// Character for a decimal digit.
pub open spec fn digit_char(d: nat) -> char {
    if d == 0 {
        '0'
    } else if d == 1 {
        '1'
    } else if d == 2 {
        '2'
    } else if d == 3 {
        '3'
    } else if d == 4 {
        '4'
    } else if d == 5 {
        '5'
    } else if d == 6 {
        '6'
    } else if d == 7 {
        '7'
    } else if d == 8 {
        '8'
    } else {
        '9'
    }
}

/// Parser state machine over the characters of a decimal string.  `mant`
/// and `frac` hold the digits read so far; any rejection yields `None`.
pub open spec fn spec_parse_loop(
    s: Seq<char>,
    i: int,
    mant: nat,
    frac: nat,
    seen_dot: bool,
) -> Option<(nat, nat)>
    decreases s.len() - i,
{
    if i < 0 || i >= s.len() {
        Some((mant, frac))
    } else {
        let c = s[i];
        if is_digit_char(c) {
            if mant >= pow10(18) {
                None
            } else if seen_dot && frac >= SCALE_LIMIT as nat {
                None
            } else {
                spec_parse_loop(
                    s,
                    i + 1,
                    10 * mant + digit_val(c),
                    if seen_dot {
                        frac + 1
                    } else {
                        frac
                    },
                    seen_dot,
                )
            }
        } else if c == '.' {
            if seen_dot || i == 0 || i + 1 >= s.len() {
                None
            } else {
                spec_parse_loop(s, i + 1, mant, frac, true)
            }
        } else {
            None
        }
    }
}

/// Grammar of accepted decimal strings: one or more digits with at most one
/// interior decimal point, mantissa below 10^19, at most `SCALE_LIMIT`
/// fraction digits.  Result: (mantissa, fraction-digit count); the denoted
/// value is mantissa / 10^frac.
pub open spec fn spec_parse_dec(s: Seq<char>) -> Option<(nat, nat)> {
    if s.len() == 0 {
        None
    } else {
        spec_parse_loop(s, 0, 0, 0, false)
    }
}

/// Digit value of one character, following `digit_val`.
fn digit_of(c: char) -> (d: u8)
    ensures
        d as nat == digit_val(c),
{
    match c {
        '0' => 0,
        '1' => 1,
        '2' => 2,
        '3' => 3,
        '4' => 4,
        '5' => 5,
        '6' => 6,
        '7' => 7,
        '8' => 8,
        '9' => 9,
        _ => 10,
    }
}

/// Parses a decimal string, following `spec_parse_dec`.
pub fn parse_dec(s: &str) -> (r: Option<(u128, u32)>)
    ensures
        match r {
            Some(p) => spec_parse_dec(s@) == Some((p.0 as nat, p.1 as nat)) && p.0 < pow10(19)
                && p.1 <= SCALE_LIMIT,
            None => spec_parse_dec(s@) is None,
        },
{
    proof {
        lemma_pow10_vals();
    }
    let n = s.unicode_len();
    if n == 0 {
        return None;
    }
    let mut mant: u128 = 0;
    let mut frac: u32 = 0;
    let mut seen_dot: bool = false;
    let mut i: usize = 0;
    while i < n
        invariant
            n == s@.len(),
            0 < n,
            i <= n,
            mant < pow10(19),
            frac <= SCALE_LIMIT,
            pow10(18) == 1_000_000_000_000_000_000,
            pow10(19) == 10_000_000_000_000_000_000,
            spec_parse_dec(s@) == spec_parse_loop(
                s@,
                i as int,
                mant as nat,
                frac as nat,
                seen_dot,
            ),
        decreases n - i,
    {
        let c = s.get_char(i);
        let d = digit_of(c);
        if d < 10 {
            if mant >= 1_000_000_000_000_000_000 {
                return None;
            }
            if seen_dot && frac >= SCALE_LIMIT {
                return None;
            }
            mant = 10 * mant + (d as u128);
            if seen_dot {
                frac = frac + 1;
            }
        } else if c == '.' {
            if seen_dot || i == 0 || i + 1 >= n {
                return None;
            }
            seen_dot = true;
        } else {
            return None;
        }
        i += 1;
    }
    Some((mant, frac))
}

/// Decimal-digit string of `n`, most significant digit first.
pub open spec fn spec_digits(n: nat) -> Seq<char>
    decreases n,
{
    if n < 10 {
        seq![digit_char(n)]
    } else {
        spec_digits(n / 10).push(digit_char(n % 10))
    }
}

/// `k` zero characters.
pub open spec fn spec_zeros(k: nat) -> Seq<char>
    decreases k,
{
    if k == 0 {
        Seq::empty()
    } else {
        spec_zeros((k - 1) as nat).push('0')
    }
}

/// The last `s` digits of `n`, zero-padded to exactly `s` characters.
pub open spec fn spec_frac_digits(n: nat, s: nat) -> Seq<char>
    decreases s,
{
    if s == 0 {
        Seq::empty()
    } else {
        spec_frac_digits(n / 10, (s - 1) as nat).push(digit_char(n % 10))
    }
}

/// Drops trailing zeros of the fraction part, keeping the value unchanged.
pub open spec fn spec_trim(m: nat, s: nat) -> (nat, nat)
    decreases s,
{
    if s > 0 && m % 10 == 0 {
        spec_trim(m / 10, (s - 1) as nat)
    } else {
        (m, s)
    }
}

/// Canonical decimal string of `m / 10^scale`.  A non-positive scale means
/// `m` followed by `-scale` zeros; trailing fraction zeros are dropped.
pub open spec fn spec_render(m: nat, scale: int) -> Seq<char> {
    if m == 0 {
        seq!['0']
    } else if scale <= 0 {
        spec_digits(m) + spec_zeros((-scale) as nat)
    } else {
        let t = spec_trim(m, scale as nat);
        if t.1 == 0 {
            spec_digits(t.0)
        } else {
            spec_digits(t.0 / pow10(t.1)) + seq!['.'] + spec_frac_digits(t.0, t.1)
        }
    }
}

/// One-character string for a digit.
fn digit_str(d: u8) -> (r: &'static str)
    requires
        d < 10,
    ensures
        r@ == seq![digit_char(d as nat)],
{
    proof {
        reveal_strlit("0");
        reveal_strlit("1");
        reveal_strlit("2");
        reveal_strlit("3");
        reveal_strlit("4");
        reveal_strlit("5");
        reveal_strlit("6");
        reveal_strlit("7");
        reveal_strlit("8");
        reveal_strlit("9");
    }
    match d {
        0 => "0",
        1 => "1",
        2 => "2",
        3 => "3",
        4 => "4",
        5 => "5",
        6 => "6",
        7 => "7",
        8 => "8",
        _ => "9",
    }
}

/// Appends the digit string of `m`.
fn push_digits(out: &mut String, m: u128)
    ensures
        final (out)@ == old(out)@ + spec_digits(m as nat),
    decreases m,
{
    if m < 10 {
        out.append(digit_str(m as u8));
        assert(final (out)@ =~= old(out)@ + spec_digits(m as nat));
    } else {
        proof {
            assert(m / 10 < m) by (nonlinear_arith)
                requires
                    m >= 10,
            {}
        }
        push_digits(out, m / 10);
        out.append(digit_str((m % 10) as u8));
        assert(final (out)@ =~= old(out)@ + spec_digits(m as nat));
    }
}

/// Appends `k` zeros.
fn push_zeros(out: &mut String, k: u32)
    ensures
        final (out)@ == old(out)@ + spec_zeros(k as nat),
    decreases k,
{
    if k == 0 {
        assert(final (out)@ =~= old(out)@ + spec_zeros(0));
    } else {
        push_zeros(out, k - 1);
        proof {
            reveal_strlit("0");
        }
        out.append("0");
        assert("0"@ =~= seq!['0']) by {
            reveal_strlit("0");
        }
        assert(final (out)@ =~= old(out)@ + spec_zeros(k as nat));
    }
}

/// Appends the `s`-digit zero-padded fraction block of `m`.
fn push_frac(out: &mut String, m: u128, s: u32)
    ensures
        final (out)@ == old(out)@ + spec_frac_digits(m as nat, s as nat),
    decreases s,
{
    if s == 0 {
        assert(final (out)@ =~= old(out)@ + spec_frac_digits(m as nat, 0));
    } else {
        push_frac(out, m / 10, s - 1);
        out.append(digit_str((m % 10) as u8));
        assert(final (out)@ =~= old(out)@ + spec_frac_digits(m as nat, s as nat));
    }
}

/// 10 to the `k`th power, as a machine integer.
pub fn pow10_u128(k: u32) -> (r: u128)
    requires
        k <= 38,
    ensures
        r as nat == pow10(k as nat),
{
    proof {
        lemma_pow10_vals();
    }
    let mut r: u128 = 1;
    let mut i: u32 = 0;
    while i < k
        invariant
            i <= k <= 38,
            r as nat == pow10(i as nat),
            pow10(38) <= u128::MAX,
        decreases k - i,
    {
        proof {
            lemma_pow10_le(i as nat + 1, 38);
        }
        r = r * 10;
        i += 1;
    }
    r
}

/// Renders `m / 10^scale` as a canonical decimal string, following
/// `spec_render`.
pub fn dec_to_string(m: u128, scale: i32) -> (r: String)
    ensures
        r@ == spec_render(m as nat, scale as int),
{
    proof {
        lemma_pow10_vals();
    }
    if m == 0 {
        let mut out = String::new();
        out.append("0");
        assert(out@ =~= spec_render(0, scale as int)) by {
            reveal_strlit("0");
        }
        return out;
    }
    if scale <= 0 {
        let mut out = String::new();
        push_digits(&mut out, m);
        let k: u64 = (-(scale as i64)) as u64;
        push_zeros(&mut out, k as u32);
        assert(out@ =~= spec_render(m as nat, scale as int));
        return out;
    }
    let mut mm: u128 = m;
    let mut sc: u32 = scale as u32;
    while sc > 0 && mm % 10 == 0
        invariant
            mm > 0,
            spec_trim(m as nat, scale as nat) == spec_trim(mm as nat, sc as nat),
        decreases sc,
    {
        mm = mm / 10;
        sc = sc - 1;
        proof {
            if mm == 0 {
                assert(false);
            }
        }
    }
    assert(spec_trim(m as nat, scale as nat) == (mm as nat, sc as nat));
    if sc == 0 {
        let mut out = String::new();
        push_digits(&mut out, mm);
        assert(out@ =~= spec_render(m as nat, scale as int));
        return out;
    }
    let ip: u128 = if sc >= 39 {
        proof {
            assert(pow10(39) == 10 * pow10(38));
            lemma_pow10_le(39, sc as nat);
            assert((mm as nat) < pow10(sc as nat));
            vstd::arithmetic::div_mod::lemma_basic_div(mm as int, pow10(sc as nat) as int);
        }
        0
    } else {
        let p = pow10_u128(sc);
        proof {
            lemma_pow10_pos(sc as nat);
        }
        mm / p
    };
    assert(ip as nat == (mm as nat) / pow10(sc as nat));
    let mut out = String::new();
    push_digits(&mut out, ip);
    proof {
        reveal_strlit(".");
    }
    out.append(".");
    assert("."@ =~= seq!['.']) by {
        reveal_strlit(".");
    }
    push_frac(&mut out, mm, sc);
    assert(out@ =~= spec_render(m as nat, scale as int));
    out
}

/// Value comparison of two parsed decimals: m1/10^s1 < m2/10^s2.
pub open spec fn spec_dec_lt(m1: nat, s1: nat, m2: nat, s2: nat) -> bool {
    m1 * pow10(s2) < m2 * pow10(s1)
}

/// Compares two parsed decimals by value, following `spec_dec_lt`.
pub fn dec_lt(m1: u128, s1: u32, m2: u128, s2: u32) -> (r: bool)
    requires
        m1 < pow10(19),
        m2 < pow10(19),
        s1 <= SCALE_LIMIT,
        s2 <= SCALE_LIMIT,
    ensures
        r == spec_dec_lt(m1 as nat, s1 as nat, m2 as nat, s2 as nat),
{
    proof {
        lemma_pow10_vals();
        lemma_pow10_le(s1 as nat, 18);
        lemma_pow10_le(s2 as nat, 18);
        lemma_mul_upper_bound(m1 as int, pow10(19) as int, pow10(s2 as nat) as int, pow10(18) as int);
        lemma_mul_upper_bound(m2 as int, pow10(19) as int, pow10(s1 as nat) as int, pow10(18) as int);
        lemma_pow10_adds(19, 18);
        lemma_pow10_le(37, 38);
    }
    let p1 = pow10_u128(s1);
    let p2 = pow10_u128(s2);
    m1 * p2 < m2 * p1
}

/// Number of extra decimal digits the truncated quotient of `pm / gm` must
/// take on before it carries at least 19 significant digits, capped at 37.
pub open spec fn spec_qsteps_from(pm: nat, gm: nat, k: nat) -> nat
    decreases 37 - k,
{
    if k >= 37 {
        37
    } else if pm * pow10(k) / gm >= pow10(18) {
        k
    } else {
        spec_qsteps_from(pm, gm, k + 1)
    }
}

pub open spec fn spec_qsteps(pm: nat, gm: nat) -> nat {
    spec_qsteps_from(pm, gm, 0)
}

/// Mantissa of the truncated decimal quotient of `pm / gm`; its denoted
/// value is this mantissa at scale `spec_qsteps(pm, gm)`.
pub open spec fn spec_quot_mant(pm: nat, gm: nat) -> nat {
    pm * pow10(spec_qsteps(pm, gm)) / gm
}

/// After 37 extra digits the truncated quotient of two mantissas below
/// 10^19 has reached 19 significant digits.
proof fn lemma_quot_reaches(pm: nat, gm: nat, k: nat)
    requires
        0 < pm,
        0 < gm < pow10(19),
        k >= 37,
    ensures
        pm * pow10(k) / gm >= pow10(18),
{
    lemma_pow10_vals();
    lemma_pow10_le(37, k);
    lemma_mul_inequality(1, pm as int, pow10(k) as int);
    assert(pow10(k) <= pm * pow10(k));
    assert(pow10(18) * gm <= pow10(18) * (pow10(19) - 1)) by (nonlinear_arith)
        requires
            gm <= pow10(19) - 1,
            pow10(18) >= 0,
    {}
    assert(pow10(18) * (pow10(19) - 1) < pow10(18) * pow10(19)) by (nonlinear_arith)
        requires
            pow10(18) >= 1,
    {}
    lemma_pow10_adds(18, 19);
    assert(pow10(18) * gm < pow10(37));
    lemma_pow10_le(37, k);
    assert(pow10(18) * gm <= pm * pow10(k));
    lemma_div_is_ordered((pow10(18) * gm) as int, (pm * pow10(k)) as int, gm as int);
    vstd::arithmetic::div_mod::lemma_div_by_multiple(pow10(18) as int, gm as int);
    assert((pow10(18) * gm) / gm == pow10(18));
}

/// Truncated decimal quotient: appends one further decimal digit of
/// `pm / gm` at a time until at least 19 significant digits are present.
/// The result denotes mantissa `r.0` at scale `r.1`.
pub fn div_quot(pm: u128, gm: u128) -> (r: (u128, u32))
    requires
        0 < pm < pow10(19),
        0 < gm < pow10(19),
    ensures
        r.1 as nat == spec_qsteps(pm as nat, gm as nat),
        r.0 as nat == spec_quot_mant(pm as nat, gm as nat),
        r.0 as nat == (pm as nat) * pow10(r.1 as nat) / (gm as nat),
        pow10(18) <= (r.0 as nat) < pow10(19),
        r.1 <= 37,
{
    proof {
        lemma_pow10_vals();
    }
    let mut out: u128 = pm / gm;
    let mut rem: u128 = pm % gm;
    let mut steps: u32 = 0;
    proof {
        lemma_div_nonincreasing(pm as int, gm as int);
        assert(pow10(0) == 1);
        assert((pm as nat) * pow10(0) == pm as nat);
    }
    while out < 1_000_000_000_000_000_000
        invariant
            0 < pm < pow10(19),
            0 < gm < pow10(19),
            pow10(18) == 1_000_000_000_000_000_000,
            pow10(19) == 10_000_000_000_000_000_000,
            steps <= 37,
            out as nat == (pm as nat) * pow10(steps as nat) / (gm as nat),
            rem as nat == (pm as nat) * pow10(steps as nat) % (gm as nat),
            rem < gm,
            (out as nat) < pow10(19),
            spec_qsteps(pm as nat, gm as nat) == spec_qsteps_from(
                pm as nat,
                gm as nat,
                steps as nat,
            ),
        decreases 37 - steps,
    {
        proof {
            if steps >= 37 {
                lemma_quot_reaches(pm as nat, gm as nat, steps as nat);
                assert(false);
            }
        }
        let ghost a: nat = (pm as nat) * pow10(steps as nat);
        let t: u128 = rem * 10;
        let q: u128 = t / gm;
        proof {
            lemma_multiply_divide_lt(t as int, gm as int, 10);
            assert(q < 10);
        }
        let out_new: u128 = out * 10 + q;
        let rem_new: u128 = t % gm;
        proof {
            lemma_fundamental_div_mod(a as int, gm as int);
            lemma_fundamental_div_mod(t as int, gm as int);
            assert(10 * a == (pm as nat) * pow10((steps + 1) as nat)) by (nonlinear_arith)
                requires
                    a == (pm as nat) * pow10(steps as nat),
                    pow10((steps + 1) as nat) == 10 * pow10(steps as nat),
            {}
            assert(10 * (a as int) == (gm as int) * (10 * (out as int) + (q as int)) + (
            rem_new as int)) by (nonlinear_arith)
                requires
                    a as int == (gm as int) * ((a as int) / (gm as int)) + (a as int) % (gm as int),
                    out as int == (a as int) / (gm as int),
                    rem as int == (a as int) % (gm as int),
                    t as int == (rem as int) * 10,
                    t as int == (gm as int) * ((t as int) / (gm as int)) + (t as int) % (gm as int),
                    q as int == (t as int) / (gm as int),
                    rem_new as int == (t as int) % (gm as int),
            {}
            lemma_fundamental_div_mod_converse(
                10 * (a as int),
                gm as int,
                10 * (out as int) + (q as int),
                rem_new as int,
            );
        }
        out = out_new;
        rem = rem_new;
        steps = steps + 1;
    }
    proof {
        if steps == 37 && out < 1_000_000_000_000_000_000 {
            lemma_quot_reaches(pm as nat, gm as nat, 37);
            assert(false);
        }
    }
    (out, steps)
}

/// The truncated quotient brackets the exact ratio: with `spec_qsteps`
/// extra digits taken on, `qm * gm <= pm * 10^k < (qm + 1) * gm`.  Read at
/// scale `k + ps - gs`, the quotient mantissa therefore denotes the ratio
/// of `pm` at scale `ps` to `gm` at scale `gs`, truncated to its own scale.
pub proof fn lemma_quot_brackets(pm: nat, gm: nat)
    requires
        0 < gm,
    ensures
        spec_quot_mant(pm, gm) * gm <= pm * pow10(spec_qsteps(pm, gm)),
        pm * pow10(spec_qsteps(pm, gm)) < (spec_quot_mant(pm, gm) + 1) * gm,
{
    let k = spec_qsteps(pm, gm);
    let qm = spec_quot_mant(pm, gm);
    let x = pm * pow10(k);
    lemma_fundamental_div_mod(x as int, gm as int);
    assert(qm == x / gm);
    assert((x as int) == (gm as int) * ((x as int) / (gm as int)) + (x as int) % (gm as int));
    assert(qm * gm <= x && x < (qm + 1) * gm) by (nonlinear_arith)
        requires
            (x as int) == (gm as int) * (qm as int) + (x as int) % (gm as int),
            0 <= (x as int) % (gm as int) < gm as int,
    {}
}

/// Digit string of an unsigned machine integer.
pub fn u64_to_string(n: u64) -> (r: String)
    ensures
        r@ == spec_digits(n as nat),
{
    let mut out = String::new();
    push_digits(&mut out, n as u128);
    assert(out@ =~= spec_digits(n as nat));
    out
}

/// Decimal string of a signed machine integer.
pub open spec fn spec_int_str(n: int) -> Seq<char> {
    if n < 0 {
        seq!['-'] + spec_digits((-n) as nat)
    } else {
        spec_digits(n as nat)
    }
}

/// Renders a signed machine integer, following `spec_int_str`.
pub fn int_to_string(n: i64) -> (r: String)
    ensures
        r@ == spec_int_str(n as int),
{
    let mut out = String::new();
    if n < 0 {
        proof {
            reveal_strlit("-");
        }
        out.append("-");
        assert("-"@ =~= seq!['-']) by {
            reveal_strlit("-");
        }
        let m: u128 = (-(n as i128)) as u128;
        push_digits(&mut out, m);
        assert(out@ =~= spec_int_str(n as int));
    } else {
        push_digits(&mut out, n as u128);
        assert(out@ =~= spec_int_str(n as int));
    }
    out
}

} // verus!
