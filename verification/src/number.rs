//! Numeric literal text: which number tokens the parser accepts as numbers,
//! and the integer a version header names.

use crate::lexer::{digits_end, lemma_digits_end};
use crate::text::{char_at, chars_of, is_digit};
use vstd::prelude::*;

verus! {

/// ASCII lower-casing of one character.
pub open spec fn lower_char(c: char) -> char {
    if 'A' <= c && c <= 'Z' {
        ((c as u32) + 32) as char
    } else {
        c
    }
}

/// ASCII lower-casing of a text.
pub open spec fn ascii_lower(s: Seq<char>) -> Seq<char> {
    s.map_values(|c: char| lower_char(c))
}

/// The value of a run of decimal digits.
pub open spec fn digits_value(s: Seq<char>) -> nat
    decreases s.len(),
{
    if s.len() == 0 {
        0
    } else {
        digits_value(s.drop_last()) * 10 + ((s.last() as u32) - ('0' as u32)) as nat
    }
}

/// The value of a run of decimal digits, saturating at `u64::MAX`.
pub open spec fn saturating_decimal(s: Seq<char>) -> u64 {
    if digits_value(s) > u64::MAX {
        u64::MAX
    } else {
        digits_value(s) as u64
    }
}

/// `10^k`.
pub open spec fn pow10(k: nat) -> nat
    decreases k,
{
    if k == 0 {
        1
    } else {
        10 * pow10((k - 1) as nat)
    }
}

/// Where the fraction digits of a number literal end (where its integer
/// digits end, if it has no point).
pub open spec fn fraction_end(text: Seq<char>) -> int {
    let a = digits_end(text, 0);
    if char_at(text, a) == '.' {
        digits_end(text, a + 1)
    } else {
        a
    }
}

/// The digits of a number literal's mantissa: its integer digits, then its
/// fraction digits.
pub open spec fn mantissa_digits(text: Seq<char>) -> Seq<char> {
    let a = digits_end(text, 0);
    if char_at(text, a) == '.' {
        text.take(a) + text.subrange(a + 1, fraction_end(text))
    } else {
        text.take(a)
    }
}

/// Where the digits of a number literal's exponent start.
pub open spec fn exponent_start(text: Seq<char>) -> int {
    let b = fraction_end(text);
    if char_at(text, b + 1) == '+' || char_at(text, b + 1) == '-' {
        b + 2
    } else {
        b + 1
    }
}

/// Whether a number literal has an exponent.
pub open spec fn has_exponent(text: Seq<char>) -> bool {
    char_at(text, fraction_end(text)) == 'e' || char_at(text, fraction_end(text)) == 'E'
}

/// Whether a number literal's exponent is negative.
pub open spec fn exponent_negative(text: Seq<char>) -> bool {
    has_exponent(text) && char_at(text, fraction_end(text) + 1) == '-'
}

/// The magnitude of a number literal's exponent, `0` without one.
pub open spec fn exponent_magnitude(text: Seq<char>) -> nat {
    if has_exponent(text) {
        let s = exponent_start(text);
        digits_value(text.subrange(s, digits_end(text, s)))
    } else {
        0
    }
}

/// The exponent of a number literal, `0` without one.
pub open spec fn exponent_value(text: Seq<char>) -> int {
    if exponent_negative(text) {
        -exponent_magnitude(text)
    } else {
        exponent_magnitude(text) as int
    }
}

/// `v` as a `u64`, saturating at `u64::MAX`.
pub open spec fn saturate(v: nat) -> u64 {
    if v > u64::MAX {
        u64::MAX
    } else {
        v as u64
    }
}

/// The integer part of the number whose digits are `ds` with the point
/// after the first `q` of them (`q` may lie outside `ds`).
pub open spec fn integer_part(ds: Seq<char>, q: int) -> nat {
    if q <= 0 {
        0
    } else if q <= ds.len() {
        digits_value(ds.take(q))
    } else {
        digits_value(ds) * pow10((q - ds.len()) as nat)
    }
}

/// The integer part of the decimal number `u` writes (mantissa times the
/// power of ten of its exponent), saturating at `u64::MAX`.
pub open spec fn decimal_version(u: Seq<char>) -> u64 {
    saturate(integer_part(mantissa_digits(u), digits_end(u, 0) + exponent_value(u)))
}

/// A number's text without its leading sign.
pub open spec fn unsigned_text(text: Seq<char>) -> Seq<char> {
    if text.len() > 0 && (text[0] == '+' || text[0] == '-') {
        text.subrange(1, text.len() as int)
    } else {
        text
    }
}

/// The integer a version literal stands for: the integer part of the number
/// it writes, saturating at `u64::MAX`; a negative number or `nan` is 0, and
/// infinity is `u64::MAX`.
pub open spec fn version_value(text: Seq<char>) -> u64 {
    let u = unsigned_text(text);
    if text.len() > 0 && text[0] == '-' {
        0
    } else if ascii_lower(u) == "inf"@ || ascii_lower(u) == "infinity"@ {
        u64::MAX
    } else if ascii_lower(u) == "nan"@ {
        0
    } else {
        decimal_version(u)
    }
}

/// Whether `text` is a floating-point literal in the syntax that `f64`
/// parsing accepts: an optional sign, then `inf`, `infinity` or `nan` (in any
/// case), or digits with an optional point and fraction (at least one digit
/// in all) and an optional exponent.
pub open spec fn float_syntax(text: Seq<char>) -> bool {
    let a: int = if text.len() > 0 && (text[0] == '+' || text[0] == '-') {
        1
    } else {
        0
    };
    let u = text.subrange(a, text.len() as int);
    special_float(u) || number_syntax(u)
}

pub open spec fn number_syntax(u: Seq<char>) -> bool {
    let i = digits_end(u, 0);
    let j = if char_at(u, i) == '.' {
        digits_end(u, i + 1)
    } else {
        i
    };
    let has_digits = if char_at(u, i) == '.' {
        i > 0 || j > i + 1
    } else {
        i > 0
    };
    has_digits && exponent_ok(u, j)
}

/// Nothing, or an exponent `e`/`E`, an optional sign and digits, up to the end.
pub open spec fn exponent_ok(u: Seq<char>, j: int) -> bool {
    if j >= u.len() {
        true
    } else if u[j] == 'e' || u[j] == 'E' {
        let k = if char_at(u, j + 1) == '+' || char_at(u, j + 1) == '-' {
            j + 2
        } else {
            j + 1
        };
        let m = digits_end(u, k);
        m > k && m == u.len()
    } else {
        false
    }
}

pub open spec fn special_float(u: Seq<char>) -> bool {
    ascii_lower(u) == "inf"@ || ascii_lower(u) == "infinity"@ || ascii_lower(u) == "nan"@
}

proof fn lemma_digits_run(s: Seq<char>, p: int)
    requires
        0 <= p <= s.len(),
    ensures
        forall|j: int| p <= j < digits_end(s, p) ==> is_digit(#[trigger] s[j]),
    decreases s.len() - p,
{
    if p < s.len() && is_digit(s[p]) {
        lemma_digits_run(s, p + 1);
    }
}

/// The end of the run of decimal digits in `v` from `p`.
pub fn digits_end_at(v: &Vec<char>, p: usize) -> (e: usize)
    requires
        p <= v@.len(),
    ensures
        e == digits_end(v@, p as int),
        p <= e <= v@.len(),
{
    let mut i = p;
    proof {
        lemma_digits_end(v@, p as int);
    }
    while i < v.len() && '0' <= v[i] && v[i] <= '9'
        invariant
            p <= i <= v@.len(),
            digits_end(v@, i as int) == digits_end(v@, p as int),
        decreases v@.len() - i,
    {
        i = i + 1;
    }
    i
}

/// The character of `v` at `i`, or NUL past the end.
fn char_or_nul(v: &Vec<char>, i: usize) -> (c: char)
    ensures
        c == char_at(v@, i as int),
{
    if i < v.len() {
        v[i]
    } else {
        '\0'
    }
}

/// Whether the ASCII lower-casing of `v` is `word`.
fn lower_equals(v: &Vec<char>, word: &str) -> (b: bool)
    ensures
        b == (ascii_lower(v@) == word@),
{
    let w = chars_of(word);
    if v.len() != w.len() {
        assert(ascii_lower(v@).len() != word@.len());
        return false;
    }
    let mut i: usize = 0;
    while i < v.len()
        invariant
            v@.len() == w@.len(),
            w@ == word@,
            0 <= i <= v@.len(),
            forall|j: int| 0 <= j < i ==> lower_char(v@[j]) == w@[j],
        decreases v@.len() - i,
    {
        let c = v[i];
        let l = if 'A' <= c && c <= 'Z' {
            let code = (c as u32) + 32;
            match crate::text::char_from_u32(code) {
                Some(x) => x,
                None => c,
            }
        } else {
            c
        };
        proof {
            if 'A' <= c && c <= 'Z' {
                assert(vstd::utf8::is_scalar(((c as u32) + 32) as u32));
            }
        }
        if l != w[i] {
            assert(ascii_lower(v@)[i as int] != word@[i as int]);
            return false;
        }
        i = i + 1;
    }
    assert(ascii_lower(v@) =~= word@);
    true
}

/// Whether `text` parses as a floating-point number (see [`float_syntax`]).
pub fn is_float_text(text: &String) -> (b: bool)
    ensures
        b == float_syntax(text@),
{
    let v = chars_of(text.as_str());
    let a: usize = if v.len() > 0 && (v[0] == '+' || v[0] == '-') {
        1
    } else {
        0
    };
    let mut u: Vec<char> = Vec::new();
    let mut i = a;
    while i < v.len()
        invariant
            a <= i <= v@.len(),
            u@ == v@.subrange(a as int, i as int),
        decreases v@.len() - i,
    {
        u.push(v[i]);
        i = i + 1;
        assert(u@ =~= v@.subrange(a as int, i as int));
    }
    if lower_equals(&u, "inf") || lower_equals(&u, "infinity") || lower_equals(&u, "nan") {
        return true;
    }
    let i = digits_end_at(&u, 0);
    let dot = char_or_nul(&u, i) == '.';
    let j = if dot {
        digits_end_at(&u, i + 1)
    } else {
        i
    };
    let has_digits = if dot {
        i > 0 || j > i + 1
    } else {
        i > 0
    };
    if !has_digits {
        return false;
    }
    if j >= u.len() {
        return true;
    }
    if u[j] == 'e' || u[j] == 'E' {
        let s = char_or_nul(&u, j + 1);
        let k = if s == '+' || s == '-' {
            j + 2
        } else {
            j + 1
        };
        if k > u.len() {
            return false;
        }
        let m = digits_end_at(&u, k);
        m > k && m == u.len()
    } else {
        false
    }
}

proof fn lemma_digits_value_push(s: Seq<char>, c: char)
    ensures
        digits_value(s.push(c)) == digits_value(s) * 10 + ((c as u32) - ('0' as u32)) as nat,
{
    assert(s.push(c).drop_last() =~= s);
}

proof fn lemma_pow10_step(k: nat)
    ensures
        pow10(k + 1) == 10 * pow10(k),
        pow10(k) >= 1,
    decreases k,
{
    if k > 0 {
        lemma_pow10_step((k - 1) as nat);
    }
}

proof fn lemma_pow10_big(k: nat)
    requires
        k >= 20,
    ensures
        pow10(k) > u64::MAX,
    decreases k,
{
    if k == 20 {
        reveal_with_fuel(pow10, 21);
    } else {
        lemma_pow10_big((k - 1) as nat);
        lemma_pow10_step((k - 1) as nat);
    }
}

proof fn lemma_pow10_mono(j: nat, k: nat)
    requires
        j <= k,
    ensures
        pow10(j) <= pow10(k),
    decreases k - j,
{
    if j < k {
        lemma_pow10_mono(j, (k - 1) as nat);
        lemma_pow10_step((k - 1) as nat);
    }
}

/// A run of digits read with saturation at `u64::MAX`.
fn saturating_digits(v: &Vec<char>) -> (n: u64)
    requires
        forall|j: int| 0 <= j < v@.len() ==> is_digit(#[trigger] v@[j]),
    ensures
        n == saturating_decimal(v@),
{
    let mut acc: u64 = 0;
    let mut i: usize = 0;
    proof {
        assert(v@.take(0) =~= Seq::<char>::empty());
    }
    while i < v.len()
        invariant
            i <= v@.len(),
            forall|j: int| 0 <= j < v@.len() ==> is_digit(#[trigger] v@[j]),
            acc == saturating_decimal(v@.take(i as int)),
        decreases v@.len() - i,
    {
        let c = v[i];
        let d = (c as u32 - '0' as u32) as u64;
        proof {
            assert(is_digit(v@[i as int]));
            assert(v@.take(i as int + 1) =~= v@.take(i as int).push(c));
            lemma_digits_value_push(v@.take(i as int), c);
        }
        acc = if acc == u64::MAX {
            u64::MAX
        } else {
            match acc.checked_mul(10) {
                Some(m) => match m.checked_add(d) {
                    Some(x) => x,
                    None => u64::MAX,
                },
                None => u64::MAX,
            }
        };
        i = i + 1;
    }
    assert(v@.take(i as int) =~= v@);
    acc
}

/// The first `n` characters of `v`.
fn prefix_of(v: &Vec<char>, n: usize) -> (r: Vec<char>)
    requires
        n <= v@.len(),
    ensures
        r@ == v@.take(n as int),
{
    let mut r: Vec<char> = Vec::new();
    let mut i: usize = 0;
    while i < n
        invariant
            i <= n <= v@.len(),
            r@ == v@.take(i as int),
        decreases n - i,
    {
        r.push(v[i]);
        assert(v@.take(i + 1) =~= v@.take(i as int).push(v@[i as int]));
        i = i + 1;
    }
    r
}

/// The value of the digits `ds` times `10^k`, saturating at `u64::MAX`.
fn scaled(ds: &Vec<char>, k: u128) -> (n: u64)
    requires
        forall|j: int| 0 <= j < ds@.len() ==> is_digit(#[trigger] ds@[j]),
    ensures
        n as int == (if digits_value(ds@) * pow10(k as nat) > u64::MAX {
            u64::MAX as int
        } else {
            (digits_value(ds@) * pow10(k as nat)) as int
        }),
{
    let mut acc = saturating_digits(ds);
    let ghost dv = digits_value(ds@);
    let mut i: u128 = 0;
    proof {
        assert(pow10(0) == 1);
    }
    while i < k && acc != 0 && acc != u64::MAX
        invariant
            i <= k,
            acc as int == (if dv * pow10(i as nat) > u64::MAX {
                u64::MAX as int
            } else {
                (dv * pow10(i as nat)) as int
            }),
        decreases k - i,
    {
        proof {
            lemma_pow10_step(i as nat);
            assert(dv * pow10((i + 1) as nat) == (dv * pow10(i as nat)) * 10) by (nonlinear_arith)
                requires
                    pow10((i + 1) as nat) == 10 * pow10(i as nat),
            ;
        }
        acc = match acc.checked_mul(10) {
            Some(m) => m,
            None => u64::MAX,
        };
        i = i + 1;
    }
    proof {
        lemma_pow10_mono(i as nat, k as nat);
        if acc == 0 {
            assert(dv * pow10(i as nat) == 0);
            lemma_pow10_step(i as nat);
            assert(dv == 0) by (nonlinear_arith)
                requires
                    dv * pow10(i as nat) == 0,
                    pow10(i as nat) >= 1,
            ;
            assert(dv * pow10(k as nat) == 0) by (nonlinear_arith)
                requires
                    dv == 0,
            ;
        } else if acc == u64::MAX {
            assert(dv * pow10(i as nat) <= dv * pow10(k as nat)) by (nonlinear_arith)
                requires
                    pow10(i as nat) <= pow10(k as nat),
            ;
        }
    }
    acc
}

/// The mantissa digits of a number literal, where its integer digits end
/// and where its fraction digits end.
fn mantissa_of(v: &Vec<char>) -> (r: (Vec<char>, usize, usize))
    ensures
        r.0@ == mantissa_digits(v@),
        r.1 == digits_end(v@, 0),
        r.2 == fraction_end(v@),
        r.1 <= r.0@.len(),
        r.2 <= v@.len(),
        forall|j: int| 0 <= j < r.0@.len() ==> is_digit(#[trigger] r.0@[j]),
{
    let a = digits_end_at(&v, 0);
    proof {
        lemma_digits_end(v@, 0);
        lemma_digits_run(v@, 0);
    }
    let mut ds = prefix_of(&v, a);
    let b: usize = if a < v.len() && v[a] == '.' {
        let b = digits_end_at(&v, a + 1);
        proof {
            lemma_digits_run(v@, a + 1);
        }
        let mut i = a + 1;
        while i < b
            invariant
                a + 1 <= i <= b <= v@.len(),
                ds@ == v@.take(a as int) + v@.subrange(a + 1, i as int),
            decreases b - i,
        {
            ds.push(v[i]);
            assert(v@.subrange(a + 1, i + 1) =~= v@.subrange(a + 1, i as int).push(v@[i as int]));
            i = i + 1;
        }
        b
    } else {
        a
    };
    assert forall|j: int| 0 <= j < ds@.len() implies is_digit(#[trigger] ds@[j]) by {
        if j < a {
            assert(ds@[j] == v@[j]);
        } else {
            assert(ds@[j] == v@[j + 1]);
        }
    }
    (ds, a, b)
}

/// Whether the exponent of a number literal is negative, and its magnitude
/// capped at `cap`.
fn exponent_of(v: &Vec<char>, b: usize, cap: u128) -> (r: (bool, u128))
    requires
        b == fraction_end(v@),
        b <= v@.len(),
        cap <= 0x1_0000_0000_0000_0000_0000_0000,
    ensures
        r.0 == exponent_negative(v@),
        r.1 as int == (if exponent_magnitude(v@) > cap {
            cap as int
        } else {
            exponent_magnitude(v@) as int
        }),
{
    let has_exp = b < v.len() && (v[b] == 'e' || v[b] == 'E');
    let neg = has_exp && b + 1 < v.len() && v[b + 1] == '-';
    let mut ex: u128 = 0;
    if has_exp {
        let s: usize = if b + 1 < v.len() && (v[b + 1] == '+' || v[b + 1] == '-') {
            b + 2
        } else {
            b + 1
        };
        let e = digits_end_at(&v, s);
        proof {
            lemma_digits_run(v@, s as int);
            assert(v@.subrange(s as int, s as int) =~= Seq::<char>::empty());
        }
        let mut i = s;
        while i < e
            invariant
                s <= i <= e <= v@.len(),
                e == digits_end(v@, s as int),
                forall|j: int| s <= j < e ==> is_digit(#[trigger] v@[j]),
                cap <= 0x1_0000_0000_0000_0000_0000_0000,
                ex <= cap,
                ex as int == (if digits_value(v@.subrange(s as int, i as int)) > cap {
                    cap as int
                } else {
                    digits_value(v@.subrange(s as int, i as int)) as int
                }),
            decreases e - i,
        {
            let d = (v[i] as u32 - '0' as u32) as u128;
            proof {
                assert(is_digit(v@[i as int]));
                assert(v@.subrange(s as int, i + 1) =~= v@.subrange(s as int, i as int).push(v@[i as int]));
                lemma_digits_value_push(v@.subrange(s as int, i as int), v@[i as int]);
            }
            let next = ex * 10 + d;
            ex = if next > cap { cap } else { next };
            i = i + 1;
        }
    }
    (neg, ex)
}

/// Past a large enough exponent the result no longer depends on it: with a
/// positive exponent it is `0` or saturates, with a negative one it is `0`.
proof fn lemma_capped_exponent(ds: Seq<char>, a: int, mag: nat, cap: nat)
    requires
        0 <= a <= ds.len(),
        cap == ds.len() + 40,
        mag >= cap,
    ensures
        saturate(integer_part(ds, a + mag)) == saturate(integer_part(ds, a + cap)),
        integer_part(ds, a - mag) == 0,
        integer_part(ds, a - cap) == 0,
{
    let dv = digits_value(ds);
    let k1 = (a + mag - ds.len()) as nat;
    let k2 = (a + cap - ds.len()) as nat;
    lemma_pow10_big(k1);
    lemma_pow10_big(k2);
    if dv == 0 {
        assert(dv * pow10(k1) == 0);
        assert(dv * pow10(k2) == 0);
    } else {
        assert(dv * pow10(k1) >= pow10(k1)) by (nonlinear_arith)
            requires
                dv >= 1,
        ;
        assert(dv * pow10(k2) >= pow10(k2)) by (nonlinear_arith)
            requires
                dv >= 1,
        ;
    }
}

/// The integer a version literal stands for (see [`version_value`]).
pub fn version_number(text: &String) -> (n: u64)
    ensures
        n == version_value(text@),
{
    let v = chars_of(text.as_str());
    if v.len() > 0 && v[0] == '-' {
        return 0;
    }
    let a: usize = if v.len() > 0 && v[0] == '+' {
        1
    } else {
        0
    };
    let mut u: Vec<char> = Vec::new();
    let mut i: usize = a;
    while i < v.len()
        invariant
            a <= i <= v@.len(),
            u@ == v@.subrange(a as int, i as int),
        decreases v@.len() - i,
    {
        proof {
            assert(v@.subrange(a as int, i + 1) =~= v@.subrange(a as int, i as int).push(v@[i as int]));
        }
        u.push(v[i]);
        i = i + 1;
    }
    proof {
        assert(u@ =~= unsigned_text(v@));
    }
    if lower_equals(&u, "inf") || lower_equals(&u, "infinity") {
        return u64::MAX;
    }
    if lower_equals(&u, "nan") {
        return 0;
    }
    decimal_version_of(&u)
}

/// The integer part of the decimal number `v` writes (see [`decimal_version`]).
fn decimal_version_of(v: &Vec<char>) -> (n: u64)
    ensures
        n == decimal_version(v@),
{
    let (ds, a, b) = mantissa_of(v);
    let cap: u128 = ds.len() as u128 + 40;
    let (neg, ex) = exponent_of(v, b, cap);
    let n: u64 = if neg {
        if ex >= a as u128 {
            0
        } else {
            let p = prefix_of(&ds, a - (ex as usize));
            saturating_digits(&p)
        }
    } else {
        let q: u128 = a as u128 + ex;
        if q <= ds.len() as u128 {
            let p = prefix_of(&ds, q as usize);
            saturating_digits(&p)
        } else {
            scaled(&ds, q - ds.len() as u128)
        }
    };
    proof {
        let mag = exponent_magnitude(v@);
        if mag > cap {
            lemma_capped_exponent(ds@, a as int, mag, cap as nat);
        }
    }
    n
}

} // verus!
