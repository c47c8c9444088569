//! IEEE-754 binary64 values held as their bit patterns: comparing them
//! the way `f64`'s `==` does, and rendering them with a fixed number of
//! decimal places the way `format!("{:.N}")` does (exact value, rounded
//! to nearest with ties to even).

use vstd::prelude::*;
use vstd::arithmetic::div_mod::{
    lemma_basic_div, lemma_div_by_multiple, lemma_mod_multiples_basic, lemma_small_mod,
};
use vstd::arithmetic::power2::{
    lemma2_to64, lemma2_to64_rest, lemma_pow2_adds, lemma_pow2_pos,
    lemma_pow2_strictly_increases, lemma_pow2_unfold, pow2,
};

use crate::text::{decimal, digit_char, push_digit};

verus! {

/// The bit pattern without its sign bit.
pub open spec fn magnitude(b: u64) -> nat {
    (b % 0x8000_0000_0000_0000) as nat
}

/// Whether the sign bit is set.
pub open spec fn sign_negative(b: u64) -> bool {
    b >= 0x8000_0000_0000_0000
}

/// Whether the value is a NaN.
pub open spec fn is_nan(b: u64) -> bool {
    magnitude(b) > 0x7FF0_0000_0000_0000
}

/// Whether the value is an infinity.
pub open spec fn is_infinite(b: u64) -> bool {
    magnitude(b) == 0x7FF0_0000_0000_0000
}

/// Whether two values compare equal with `f64`'s `==`: never for a NaN,
/// and the two zeros are equal.
pub open spec fn same_value(a: u64, b: u64) -> bool {
    &&& !is_nan(a)
    &&& !is_nan(b)
    &&& (a == b || (magnitude(a) == 0 && magnitude(b) == 0))
}

/// Compares two values as `f64`'s `==` does.
pub fn values_equal(a: u64, b: u64) -> (r: bool)
    ensures
        r == same_value(a, b),
{
    let ma = a % 0x8000_0000_0000_0000;
    let mb = b % 0x8000_0000_0000_0000;
    ma <= 0x7FF0_0000_0000_0000 && mb <= 0x7FF0_0000_0000_0000 && (a == b || (ma == 0 && mb
        == 0))
}

/// The biased exponent field.
pub open spec fn exponent_field(b: u64) -> nat {
    magnitude(b) / 0x10_0000_0000_0000
}

/// The significand of a finite value: its magnitude is
/// `significand(b) * 2^exponent(b)`.
pub open spec fn significand(b: u64) -> nat {
    if exponent_field(b) == 0 {
        magnitude(b) % 0x10_0000_0000_0000
    } else {
        magnitude(b) % 0x10_0000_0000_0000 + 0x10_0000_0000_0000
    }
}

/// The binary exponent of a finite value.
pub open spec fn exponent(b: u64) -> int {
    if exponent_field(b) == 0 {
        -1074
    } else {
        exponent_field(b) - 1075
    }
}

/// Ten to the power `p`.
pub open spec fn pow10(p: nat) -> nat
    decreases p,
{
    if p == 0 {
        1
    } else {
        10 * pow10((p - 1) as nat)
    }
}

/// The magnitude of a finite value times `10^places`, rounded to the
/// nearest integer, ties to even.
pub open spec fn scaled_rounded(b: u64, places: nat) -> nat {
    let m = significand(b);
    let e = exponent(b);
    if e >= 0 {
        m * pow2(e as nat) * pow10(places)
    } else {
        let x = m * pow10(places);
        let d = pow2((-e) as nat);
        let q = x / d;
        let r = x % d;
        if 2 * r > d || (2 * r == d && q % 2 == 1) {
            q + 1
        } else {
            q
        }
    }
}

/// The last `p` decimal digits of `k`, zeros in front where needed.
pub open spec fn padded_digits(k: nat, p: nat) -> Seq<char>
    decreases p,
{
    if p == 0 {
        Seq::empty()
    } else {
        padded_digits(k / 10, (p - 1) as nat).push(digit_char(k % 10))
    }
}

/// How `format!("{:.places$}")` renders the value with bits `b`.
pub open spec fn fixed_text(b: u64, places: nat) -> Seq<char> {
    if is_nan(b) {
        "NaN"@
    } else {
        let sign = if sign_negative(b) {
            "-"@
        } else {
            Seq::<char>::empty()
        };
        if is_infinite(b) {
            sign + "inf"@
        } else {
            let n = scaled_rounded(b, places);
            sign + decimal(n / pow10(places)) + "."@ + padded_digits(n % pow10(places), places)
        }
    }
}

/// The value of decimal digits held least significant first.
pub open spec fn le_value(ds: Seq<u8>) -> nat
    decreases ds.len(),
{
    if ds.len() == 0 {
        0
    } else {
        ds[0] as nat + 10 * le_value(ds.drop_first())
    }
}

/// Whether every entry is a decimal digit.
pub open spec fn all_digits(ds: Seq<u8>) -> bool {
    forall|i: int| 0 <= i < ds.len() ==> #[trigger] ds[i] < 10
}

/// Digits, least significant first, with no zero on top (but the lone
/// digit of zero).
pub open spec fn canonical(ds: Seq<u8>) -> bool {
    &&& ds.len() > 0
    &&& ds.len() == 1 || ds.last() != 0
    &&& all_digits(ds)
}

/// The characters of digits held least significant first, most
/// significant first.
pub open spec fn reversed_chars(ds: Seq<u8>) -> Seq<char>
    decreases ds.len(),
{
    if ds.len() == 0 {
        Seq::empty()
    } else {
        reversed_chars(ds.drop_first()).push(digit_char(ds[0] as nat))
    }
}

proof fn lemma_le_value_step(ds: Seq<u8>, i: int)
    requires
        0 <= i < ds.len(),
    ensures
        le_value(ds.skip(i)) == ds[i] as nat + 10 * le_value(ds.skip(i + 1)),
        reversed_chars(ds.skip(i)) == reversed_chars(ds.skip(i + 1)).push(
            digit_char(ds[i] as nat),
        ),
{
    assert(ds.skip(i).drop_first() =~= ds.skip(i + 1));
}

/// Digits with a nonzero top are worth at least one.
proof fn lemma_le_value_positive(ds: Seq<u8>)
    requires
        ds.len() > 0,
        ds.last() != 0,
    ensures
        le_value(ds) >= 1,
    decreases ds.len(),
{
    if ds.len() > 1 {
        assert(ds.drop_first().last() == ds.last());
        lemma_le_value_positive(ds.drop_first());
    }
}

/// Canonical digits spell the decimal rendering of their value.
proof fn lemma_canonical_spells_decimal(ds: Seq<u8>)
    requires
        canonical(ds),
    ensures
        decimal(le_value(ds)) == reversed_chars(ds),
    decreases ds.len(),
{
    let rest = ds.drop_first();
    let n = le_value(ds);
    assert(ds[0] < 10);
    if ds.len() == 1 {
        assert(le_value(rest) == 0);
        assert(reversed_chars(rest) =~= Seq::<char>::empty());
        assert(decimal(n) =~= seq![digit_char(n)]);
    } else {
        assert(rest.last() == ds.last());
        assert(all_digits(rest)) by {
            assert forall|i: int| 0 <= i < rest.len() implies #[trigger] rest[i] < 10 by {
                assert(rest[i] == ds[i + 1]);
            }
        }
        lemma_canonical_spells_decimal(rest);
        lemma_le_value_positive(rest);
        assert(n / 10 == le_value(rest));
        assert(n % 10 == ds[0] as nat);
    }
}

/// The digits of `n`, least significant first.
fn digits_of(n: u128) -> (r: Vec<u8>)
    ensures
        le_value(r@) == n,
        canonical(r@),
    decreases n,
{
    let mut v: Vec<u8> = Vec::new();
    v.push((n % 10) as u8);
    if n >= 10 {
        let mut rest = digits_of(n / 10);
        let ghost rv = rest@;
        v.append(&mut rest);
        proof {
            assert(v@.drop_first() =~= rv);
            assert(v@[0] == (n % 10) as u8);
            assert(le_value(v@) == v@[0] as nat + 10 * le_value(rv));
            assert(v@.last() == rv.last());
            if rv.len() == 1 {
                assert(le_value(rv.drop_first()) == 0);
                assert(rv[0] as nat == n / 10);
            }
            assert forall|i: int| 0 <= i < v@.len() implies #[trigger] v@[i] < 10 by {
                if i > 0 {
                    assert(v@[i] == rv[i - 1]);
                }
            }
        }
    } else {
        assert(v@.drop_first() =~= Seq::<u8>::empty());
        assert(le_value(v@) == v@[0] as nat + 10 * le_value(v@.drop_first()));
    }
    v
}

/// `v[i..]` doubled, plus `carry`, as digits least significant first.
fn doubled_from(v: &Vec<u8>, i: usize, carry: u8) -> (r: Vec<u8>)
    requires
        i <= v@.len(),
        all_digits(v@),
        v@.len() == 0 || v@.last() != 0,
        carry <= 1,
    ensures
        le_value(r@) == 2 * le_value(v@.skip(i as int)) + carry,
        all_digits(r@),
        r@.len() == 0 || r@.last() != 0,
        r@.len() == 0 ==> i == v@.len() && carry == 0,
    decreases v@.len() - i,
{
    if i == v.len() {
        assert(v@.skip(i as int) =~= Seq::<u8>::empty());
        let mut r: Vec<u8> = Vec::new();
        if carry > 0 {
            r.push(carry);
            assert(r@.drop_first() =~= Seq::<u8>::empty());
        }
        return r;
    }
    let x: u8 = 2 * v[i] + carry;
    proof {
        lemma_le_value_step(v@, i as int);
    }
    let mut r: Vec<u8> = Vec::new();
    r.push(x % 10);
    let mut rest = doubled_from(v, i + 1, x / 10);
    let ghost rv = rest@;
    r.append(&mut rest);
    proof {
        assert(r@.drop_first() =~= rv);
        assert forall|j: int| 0 <= j < r@.len() implies #[trigger] r@[j] < 10 by {
            if j > 0 {
                assert(r@[j] == rv[j - 1]);
            }
        }
        if rv.len() > 0 {
            assert(r@.last() == rv.last());
        } else {
            assert(i + 1 == v@.len());
            assert(v@[i as int] == v@.last());
        }
    }
    r
}

/// Appends the characters of canonical digits, most significant first.
fn push_digits(s: &mut String, v: &Vec<u8>)
    requires
        canonical(v@),
    ensures
        final(s)@ == old(s)@ + decimal(le_value(v@)),
{
    let ghost start = s@;
    let mut i: usize = v.len();
    assert(v@.skip(i as int) =~= Seq::<u8>::empty());
    while i > 0
        invariant
            i <= v@.len(),
            all_digits(v@),
            s@ == start + reversed_chars(v@.skip(i as int)),
        decreases i,
    {
        i = i - 1;
        proof {
            lemma_le_value_step(v@, i as int);
        }
        push_digit(s, v[i]);
    }
    proof {
        assert(v@.skip(0) =~= v@);
        lemma_canonical_spells_decimal(v@);
    }
}

/// Appends the last `p` decimal digits of `k`, zeros in front where needed.
fn push_padded(s: &mut String, k: u128, p: u32)
    ensures
        final(s)@ == old(s)@ + padded_digits(k as nat, p as nat),
    decreases p,
{
    if p > 0 {
        push_padded(s, k / 10, p - 1);
        push_digit(s, (k % 10) as u8);
    }
}

/// Powers of ten grow with the exponent.
proof fn lemma_pow10_grows(a: nat, b: nat)
    requires
        a <= b,
    ensures
        1 <= pow10(a) <= pow10(b),
    decreases b,
{
    if b > 0 {
        if a < b {
            lemma_pow10_grows(a, (b - 1) as nat);
        } else {
            lemma_pow10_grows((a - 1) as nat, (b - 1) as nat);
        }
    }
}

/// Ten to the power `p`.
fn pow10_of(p: u32) -> (r: u128)
    requires
        p <= 18,
    ensures
        r == pow10(p as nat),
        r <= 1_000_000_000_000_000_000,
{
    proof {
        reveal_with_fuel(pow10, 19);
        assert(pow10(18) == 1_000_000_000_000_000_000);
    }
    let mut t: u128 = 1;
    let mut k: u32 = 0;
    while k < p
        invariant
            k <= p <= 18,
            t == pow10(k as nat),
            pow10(18) == 1_000_000_000_000_000_000,
        decreases p - k,
    {
        proof {
            lemma_pow10_grows((k + 1) as nat, 18);
        }
        t = t * 10;
        k = k + 1;
    }
    proof {
        lemma_pow10_grows(p as nat, 18);
    }
    t
}

/// Two to the power `s`.
fn pow2_of(s: u32) -> (r: u128)
    requires
        s <= 127,
    ensures
        r == pow2(s as nat),
{
    proof {
        lemma2_to64();
        lemma2_to64_rest();
        lemma_pow2_adds(64, 63);
    }
    let mut d: u128 = 1;
    let mut k: u32 = 0;
    while k < s
        invariant
            k <= s <= 127,
            d == pow2(k as nat),
            pow2(127) == 0x8000_0000_0000_0000_0000_0000_0000_0000,
        decreases s - k,
    {
        proof {
            lemma_pow2_unfold((k + 1) as nat);
            if k + 1 < 127 {
                lemma_pow2_strictly_increases((k + 1) as nat, 127);
            }
        }
        d = d * 2;
        k = k + 1;
    }
    d
}

/// The digits of `m * 2^e`, least significant first.
fn digits_of_scaled(m: u64, e: u64) -> (r: Vec<u8>)
    requires
        m > 0,
    ensures
        canonical(r@),
        le_value(r@) == m * pow2(e as nat),
{
    let mut v = digits_of(m as u128);
    if v.len() == 1 {
        assert(le_value(v@.drop_first()) == 0);
    }
    proof {
        lemma2_to64();
    }
    let mut k: u64 = 0;
    while k < e
        invariant
            k <= e,
            canonical(v@),
            v@.len() == 1 ==> v@[0] != 0,
            le_value(v@) == m * pow2(k as nat),
        decreases e - k,
    {
        assert(v@.skip(0) =~= v@);
        let w = doubled_from(&v, 0, 0);
        proof {
            lemma_pow2_unfold((k + 1) as nat);
            assert(m * pow2((k + 1) as nat) == 2 * (m * pow2(k as nat))) by (nonlinear_arith)
                requires
                    pow2((k + 1) as nat) == 2 * pow2(k as nat),
            ;
            if w@.len() == 1 {
                assert(w@.last() == w@[0]);
            }
        }
        v = w;
        k = k + 1;
    }
    v
}

/// Renders the value with bits `bits` with `places` decimal places, as
/// `format!("{:.places$}")` renders an `f64`.
pub fn render_fixed(bits: u64, places: u32) -> (r: String)
    requires
        1 <= places <= 18,
    ensures
        r@ == fixed_text(bits, places as nat),
{
    let mag: u64 = bits % 0x8000_0000_0000_0000;
    if mag > 0x7FF0_0000_0000_0000 {
        return String::from_str("NaN");
    }
    let mut s = String::new();
    if bits >= 0x8000_0000_0000_0000 {
        s.append("-");
    }
    let ghost sign = s@;
    if mag == 0x7FF0_0000_0000_0000 {
        s.append("inf");
        return s;
    }
    let field: u64 = mag / 0x10_0000_0000_0000;
    let frac: u64 = mag % 0x10_0000_0000_0000;
    let m: u64 = if field == 0 {
        frac
    } else {
        frac + 0x10_0000_0000_0000
    };
    let t = pow10_of(places);
    let ghost p = places as nat;
    proof {
        lemma_pow10_grows(0, p);
    }
    if field >= 1075 {
        let e: u64 = field - 1075;
        let v = digits_of_scaled(m, e);
        push_digits(&mut s, &v);
        s.append(".");
        push_padded(&mut s, 0, places);
        proof {
            let x = m * pow2(e as nat);
            lemma_div_by_multiple(x as int, pow10(p) as int);
            lemma_mod_multiples_basic(x as int, pow10(p) as int);
            assert(scaled_rounded(bits, p) == x * pow10(p));
        }
    } else {
        let sh: u64 = if field == 0 {
            1074
        } else {
            1075 - field
        };
        assert(m < 0x20_0000_0000_0000);
        assert((m as nat) * (t as nat) < 0x2_0000_0000_0000_0000_0000_0000_0000) by (nonlinear_arith)
            requires
                m < 0x20_0000_0000_0000,
                t <= 1_000_000_000_000_000_000,
        ;
        let x: u128 = (m as u128) * t;
        let n: u128 = if sh >= 128 {
            proof {
                lemma2_to64();
                lemma_pow2_adds(64, 64);
                if sh > 128 {
                    lemma_pow2_strictly_increases(128, sh as nat);
                }
                let d = pow2(sh as nat);
                lemma_basic_div(x as int, d as int);
                lemma_small_mod(x as nat, d);
            }
            0
        } else {
            let d = pow2_of(sh as u32);
            proof {
                lemma_pow2_pos(sh as nat);
                lemma2_to64();
                lemma2_to64_rest();
                lemma_pow2_adds(64, 63);
                if sh < 127 {
                    lemma_pow2_strictly_increases(sh as nat, 127);
                }
            }
            let q = x / d;
            let r = x % d;
            assert(q <= x) by (nonlinear_arith)
                requires
                    q == x / d,
                    d >= 1,
            ;
            if 2 * r > d || (2 * r == d && q % 2 == 1) {
                q + 1
            } else {
                q
            }
        };
        assert(n == scaled_rounded(bits, p));
        let v = digits_of(n / t);
        push_digits(&mut s, &v);
        s.append(".");
        push_padded(&mut s, n % t, places);
    }
    assert(s@ =~= fixed_text(bits, places as nat));
    s
}

/// The decimal rendering of a number starts with a digit.
proof fn lemma_decimal_starts_with_digit(n: nat)
    ensures
        decimal(n).len() > 0,
        '0' <= decimal(n)[0] <= '9',
    decreases n,
{
    if n >= 10 {
        lemma_decimal_starts_with_digit(n / 10);
    }
}

/// A rendering starts with a minus sign exactly when the value's sign is
/// negative (a negative zero too) and it is not a NaN.
pub proof fn lemma_fixed_text_sign(b: u64, places: nat)
    ensures
        fixed_text(b, places).len() > 0,
        fixed_text(b, places)[0] == '-' <==> (sign_negative(b) && !is_nan(b)),
{
    reveal_strlit("NaN");
    reveal_strlit("-");
    reveal_strlit("inf");
    if !is_nan(b) && !is_infinite(b) {
        let n = scaled_rounded(b, places);
        lemma_decimal_starts_with_digit(n / pow10(places));
    }
}

/// Setting the sign bit of a value that is not a NaN only puts a minus
/// sign in front of its rendering.
pub proof fn negation_adds_a_minus_sign(b: u64, places: nat)
    requires
        !sign_negative(b),
        !is_nan(b),
    ensures
        fixed_text((b + 0x8000_0000_0000_0000) as u64, places) == "-"@ + fixed_text(b, places),
{
    let nb = (b + 0x8000_0000_0000_0000) as u64;
    assert(magnitude(nb) == magnitude(b));
    assert(sign_negative(nb));
    assert(Seq::<char>::empty() + fixed_text(b, places) =~= fixed_text(b, places));
    if is_infinite(b) {
        assert(fixed_text(nb, places) =~= "-"@ + "inf"@);
    } else {
        let n = scaled_rounded(b, places);
        assert(scaled_rounded(nb, places) == n);
        assert(fixed_text(nb, places) =~= "-"@ + (decimal(n / pow10(places)) + "."@
            + padded_digits(n % pow10(places), places)));
        assert(fixed_text(b, places) =~= decimal(n / pow10(places)) + "."@ + padded_digits(
            n % pow10(places),
            places,
        ));
    }
}

} // verus!
