//! Decimal literals: the grammar of a number in an option string, and its
//! value as a fixed-point integer.
//!
//! A literal is an optional sign, digits with at most one point among them
//! (at least one digit in all), and optionally `e` or `E`, an optional sign
//! and at least one digit. Nothing may stand before or after it.

use vstd::prelude::*;
use vstd::arithmetic::div_mod::lemma_div_denominator;
use vstd::arithmetic::power::{lemma_pow_increases, lemma_pow_positive, pow};

verus! {

/// The largest magnitude that a fixed-point value takes: greater values are
/// held as this one.
pub const LIMIT: i64 = 1_000_000_000_000_000_000;

/// Whether `c` is one of `0` to `9`.
pub open spec fn is_digit(c: char) -> bool {
    0x30 <= c as u32 <= 0x39
}

/// The value of a digit.
pub open spec fn digit_of(c: char) -> int {
    (c as u32) - 0x30
}

/// Number of digits in a row from index `from` on.
pub open spec fn digit_run(s: Seq<char>, from: int) -> int
    decreases s.len() - from,
{
    if 0 <= from < s.len() && is_digit(s[from]) {
        1 + digit_run(s, from + 1)
    } else {
        0
    }
}

/// The number that a sequence of digits writes, most significant digit first.
pub open spec fn number_of(digits: Seq<char>) -> nat
    decreases digits.len(),
{
    if digits.len() == 0 {
        0
    } else {
        (number_of(digits.drop_last()) * 10 + digit_of(digits.last())) as nat
    }
}

/// 1 if a sign stands at index `at`, else 0.
pub open spec fn sign_width(s: Seq<char>, at: int) -> int {
    if 0 <= at < s.len() && (s[at] == '+' || s[at] == '-') {
        1
    } else {
        0
    }
}

/// Whether a minus sign stands at index `at`.
pub open spec fn minus_at(s: Seq<char>, at: int) -> bool {
    0 <= at < s.len() && s[at] == '-'
}

/// A decimal literal taken apart: it stands for the number that `digits`
/// writes, times ten to the power `scale`, negated if `negative`.
pub struct Literal {
    pub negative: bool,
    pub digits: Seq<char>,
    pub scale: int,
}

/// The parts of the literal that `s` is, if it is one.
pub open spec fn literal(s: Seq<char>) -> Option<Literal> {
    let whole_from = sign_width(s, 0);
    let whole_to = whole_from + digit_run(s, whole_from);
    let point = whole_to < s.len() && s[whole_to] == '.';
    let frac_from = if point {
        whole_to + 1
    } else {
        whole_to
    };
    let frac_to = if point {
        frac_from + digit_run(s, frac_from)
    } else {
        frac_from
    };
    let digits = s.subrange(whole_from, whole_to) + s.subrange(frac_from, frac_to);
    if digits.len() == 0 {
        None
    } else if frac_to == s.len() {
        Some(Literal { negative: minus_at(s, 0), digits, scale: -(frac_to - frac_from) })
    } else if s[frac_to] == 'e' || s[frac_to] == 'E' {
        let exp_from = frac_to + 1 + sign_width(s, frac_to + 1);
        let exp_to = exp_from + digit_run(s, exp_from);
        if exp_to > exp_from && exp_to == s.len() {
            let exponent = number_of(s.subrange(exp_from, exp_to));
            Some(
                Literal {
                    negative: minus_at(s, 0),
                    digits,
                    scale: (if minus_at(s, frac_to + 1) {
                        -exponent
                    } else {
                        exponent as int
                    }) - (frac_to - frac_from),
                },
            )
        } else {
            None
        }
    } else {
        None
    }
}

/// The whole part of the number that `digits` writes times ten to the power
/// `k`: for a negative `k`, the last `-k` digits are dropped.
pub open spec fn magnitude(digits: Seq<char>, k: int) -> nat {
    if k >= 0 {
        (number_of(digits) * pow(10, k as nat)) as nat
    } else if digits.len() + k > 0 {
        number_of(digits.take(digits.len() + k))
    } else {
        0
    }
}

/// `m`, or the limit if `m` is beyond it.
pub open spec fn capped(m: int) -> int {
    if m > LIMIT {
        LIMIT as int
    } else {
        m
    }
}

impl Literal {
    /// The literal's value times ten to the power `shift`, cut off toward
    /// zero, and held at the limit if its magnitude is beyond it.
    pub open spec fn fixed(self, shift: int) -> int {
        let m = capped(magnitude(self.digits, self.scale + shift) as int);
        if self.negative {
            -m
        } else {
            m
        }
    }
}

/// The fixed-point value of the literal that `s` is, if it is one.
pub open spec fn fixed_value(s: Seq<char>, shift: int) -> Option<int> {
    match literal(s) {
        Some(l) => Some(l.fixed(shift)),
        None => None,
    }
}

/// A run of digits stays inside the string and holds digits only.
pub proof fn lemma_digit_run(s: Seq<char>, from: int)
    requires
        0 <= from <= s.len(),
    ensures
        0 <= digit_run(s, from) <= s.len() - from,
        forall|i: int| from <= i < from + digit_run(s, from) ==> is_digit(s[i]),
        from + digit_run(s, from) < s.len() ==> !is_digit(s[from + digit_run(s, from)]),
    decreases s.len() - from,
{
    if from < s.len() && is_digit(s[from]) {
        lemma_digit_run(s, from + 1);
    }
}

/// Appending a digit multiplies by ten and adds the digit.
pub proof fn lemma_number_of_push(digits: Seq<char>, c: char)
    requires
        is_digit(c),
    ensures
        number_of(digits.push(c)) == number_of(digits) * 10 + digit_of(c),
{
    assert(digits.push(c).drop_last() =~= digits);
}

/// A number of at least 1 times ten to a power of at least 19 is beyond the
/// limit.
pub proof fn lemma_large_shift_is_capped(m: int, k: nat)
    requires
        m >= 1,
        k >= 19,
    ensures
        m * pow(10, k) > LIMIT,
{
    lemma_pow_increases(10, 19, k);
    assert(pow(10, 19) == 10_000_000_000_000_000_000int) by {
        reveal_with_fuel(pow, 20);
    }
    let p = pow(10, k);
    assert(m * p >= p) by (nonlinear_arith)
        requires
            m >= 1,
            p >= 0,
    ;
}

/// Whether every character of `s` is a digit.
pub open spec fn all_digits(s: Seq<char>) -> bool {
    forall|i: int| 0 <= i < s.len() ==> is_digit(s[i])
}

/// A number of `n` digits is less than ten to the power `n`.
pub proof fn lemma_number_is_below_power(digits: Seq<char>)
    requires
        all_digits(digits),
    ensures
        number_of(digits) < pow(10, digits.len()),
    decreases digits.len(),
{
    if digits.len() == 0 {
        assert(pow(10, 0) == 1) by {
            reveal_with_fuel(pow, 1);
        }
    } else {
        lemma_number_is_below_power(digits.drop_last());
        assert(is_digit(digits.last()));
        assert(pow(10, digits.len()) == 10 * pow(10, (digits.len() - 1) as nat)) by {
            reveal_with_fuel(pow, 2);
        }
    }
}

/// Dropping the last `j` digits of a number divides it by ten to the power
/// `j`, the remainder cut off.
pub proof fn lemma_dropping_digits_divides(digits: Seq<char>, j: nat)
    requires
        all_digits(digits),
        j <= digits.len(),
    ensures
        number_of(digits.take(digits.len() - j)) == (number_of(digits) as int) / pow(10, j),
    decreases j,
{
    if j == 0 {
        assert(digits.take(digits.len() as int) =~= digits);
        assert(pow(10, 0) == 1) by {
            reveal_with_fuel(pow, 1);
        }
    } else {
        let shorter = digits.drop_last();
        assert(is_digit(digits.last()));
        assert(shorter.take(shorter.len() - (j - 1)) =~= digits.take(digits.len() - j));
        lemma_dropping_digits_divides(shorter, (j - 1) as nat);
        let p = pow(10, (j - 1) as nat);
        lemma_pow_positive(10, (j - 1) as nat);
        assert(pow(10, j) == 10 * p) by {
            reveal_with_fuel(pow, 2);
        }
        let whole = number_of(digits) as int;
        assert(whole / 10 == number_of(shorter));
        lemma_div_denominator(whole, 10, p);
    }
}

/// The magnitude is the number that the digits write times ten to the
/// power `k`, cut off toward zero: for a negative `k` the number divided by
/// ten to the power `-k`.
pub proof fn lemma_magnitude_is_cut_off_product(digits: Seq<char>, k: int)
    requires
        all_digits(digits),
    ensures
        k >= 0 ==> magnitude(digits, k) == number_of(digits) * pow(10, k as nat),
        k < 0 ==> magnitude(digits, k) == (number_of(digits) as int) / pow(10, (-k) as nat),
{
    if k >= 0 {
        lemma_pow_positive(10, k as nat);
        assert(number_of(digits) * pow(10, k as nat) >= 0) by (nonlinear_arith)
            requires
                number_of(digits) >= 0,
                pow(10, k as nat) > 0,
        ;
    } else if digits.len() + k > 0 {
        lemma_dropping_digits_divides(digits, (-k) as nat);
    } else {
        lemma_number_is_below_power(digits);
        lemma_pow_increases(10, digits.len(), (-k) as nat);
        vstd::arithmetic::div_mod::lemma_basic_div(
            number_of(digits) as int,
            pow(10, (-k) as nat),
        );
    }
}

/// Scans the digits that stand in a row from `from` on and returns the index
/// behind them.
pub fn scan_digits(s: &Vec<char>, from: usize) -> (to: usize)
    requires
        from <= s@.len(),
    ensures
        to == from + digit_run(s@, from as int),
        from <= to <= s@.len(),
{
    let n = s.len();
    let mut to: usize = from;
    while to < n && digit(s[to])
        invariant
            n == s@.len(),
            from <= to <= n,
            digit_run(s@, from as int) == (to - from) + digit_run(s@, to as int),
        decreases n - to,
    {
        to += 1;
    }
    to
}

/// Whether `c` is one of `0` to `9`.
pub fn digit(c: char) -> (b: bool)
    ensures
        b == is_digit(c),
{
    let u: u32 = c as u32;
    0x30 <= u && u <= 0x39
}

/// Whether a sign stands at index `at`.
fn sign_at(s: &Vec<char>, at: usize) -> (r: (usize, bool))
    requires
        at <= s@.len(),
    ensures
        r.0 == sign_width(s@, at as int),
        r.1 == minus_at(s@, at as int),
{
    if at < s.len() {
        let c = s[at];
        if c == '-' {
            (1, true)
        } else if c == '+' {
            (1, false)
        } else {
            (0, false)
        }
    } else {
        (0, false)
    }
}

/// The number that the digits `s[from..to]` write, held at `cap` if it is
/// beyond it.
pub fn capped_number(s: &Vec<char>, from: usize, to: usize, cap: u128) -> (r: u128)
    requires
        from <= to <= s@.len(),
        forall|i: int| from <= i < to ==> is_digit(s@[i]),
        cap <= 0x0fff_ffff_ffff_ffff_ffff_ffff_ffff_ffff,
    ensures
        r == if number_of(s@.subrange(from as int, to as int)) > cap {
            cap as int
        } else {
            number_of(s@.subrange(from as int, to as int)) as int
        },
{
    let mut acc: u128 = 0;
    let mut i: usize = from;
    assert(s@.subrange(from as int, from as int) =~= Seq::<char>::empty());
    while i < to
        invariant
            from <= i <= to <= s@.len(),
            forall|j: int| from <= j < to ==> is_digit(s@[j]),
            cap <= 0x0fff_ffff_ffff_ffff_ffff_ffff_ffff_ffff,
            acc <= cap,
            acc == if number_of(s@.subrange(from as int, i as int)) > cap {
                cap as int
            } else {
                number_of(s@.subrange(from as int, i as int)) as int
            },
        decreases to - i,
    {
        let d: u128 = (s[i] as u32 - 0x30) as u128;
        proof {
            let before = s@.subrange(from as int, i as int);
            assert(s@.subrange(from as int, i + 1) =~= before.push(s@[i as int]));
            lemma_number_of_push(before, s@[i as int]);
        }
        let next: u128 = acc * 10 + d;
        acc = if next > cap {
            cap
        } else {
            next
        };
        i += 1;
    }
    acc
}

/// Copies `s[a..b]` and `s[c..d]` into one vector.
fn join(s: &Vec<char>, a: usize, b: usize, c: usize, d: usize) -> (r: Vec<char>)
    requires
        a <= b <= s@.len(),
        c <= d <= s@.len(),
    ensures
        r@ == s@.subrange(a as int, b as int) + s@.subrange(c as int, d as int),
{
    let mut r: Vec<char> = Vec::new();
    let mut i: usize = a;
    while i < b
        invariant
            a <= i <= b <= s@.len(),
            r@ == s@.subrange(a as int, i as int),
        decreases b - i,
    {
        r.push(s[i]);
        i += 1;
    }
    let mut j: usize = c;
    while j < d
        invariant
            c <= j <= d <= s@.len(),
            r@ == s@.subrange(a as int, b as int) + s@.subrange(c as int, j as int),
        decreases d - j,
    {
        r.push(s[j]);
        j += 1;
    }
    r
}

/// The magnitude of `digits` shifted by `k` decimal places, held at the limit.
fn capped_magnitude(digits: &Vec<char>, k: i128) -> (r: u128)
    requires
        forall|i: int| 0 <= i < digits@.len() ==> is_digit(digits@[i]),
    ensures
        r == capped(magnitude(digits@, k as int) as int),
        r <= LIMIT,
{
    let n = digits.len();
    if k >= 0 {
        assert(digits@.subrange(0, n as int) =~= digits@);
        let mut acc: u128 = capped_number(digits, 0, n, LIMIT as u128);
        let mut left: i128 = k;
        let ghost m = number_of(digits@) as int;
        proof {
            lemma_pow_positive(10, k as nat);
            let p = pow(10, k as nat);
            if m > LIMIT {
                assert(m * p >= m) by (nonlinear_arith)
                    requires
                        m >= 0,
                        p >= 1,
                ;
                assert(LIMIT * p >= LIMIT) by (nonlinear_arith)
                    requires
                        p >= 1,
                ;
            }
        }
        while left > 0 && acc > 0 && acc < LIMIT as u128
            invariant
                0 <= left <= k,
                acc <= LIMIT,
                m == number_of(digits@),
                k >= 0,
                capped(acc * pow(10, left as nat)) == capped(m * pow(10, k as nat)),
            decreases left,
        {
            proof {
                let p = pow(10, (left - 1) as nat);
                lemma_pow_positive(10, (left - 1) as nat);
                assert(pow(10, left as nat) == 10 * p) by {
                    reveal_with_fuel(pow, 2);
                }
                assert(acc * (10 * p) == (acc * 10) * p) by (nonlinear_arith);
                if acc * 10 > LIMIT {
                    assert((acc * 10) * p >= acc * 10) by (nonlinear_arith)
                        requires
                            acc >= 0,
                            p >= 1,
                    ;
                    assert(LIMIT * p >= LIMIT) by (nonlinear_arith)
                        requires
                            p >= 1,
                    ;
                }
            }
            let next: u128 = acc * 10;
            acc = if next > LIMIT as u128 {
                LIMIT as u128
            } else {
                next
            };
            left -= 1;
        }
        proof {
            let p = pow(10, left as nat);
            lemma_pow_positive(10, left as nat);
            if left == 0 {
                assert(p == 1) by {
                    reveal_with_fuel(pow, 1);
                }
                assert(acc * p == acc) by (nonlinear_arith)
                    requires
                        p == 1,
                ;
            } else if acc == 0 {
                assert(acc * p == 0) by (nonlinear_arith)
                    requires
                        acc == 0,
                ;
            } else {
                assert(acc * p >= acc) by (nonlinear_arith)
                    requires
                        acc >= 0,
                        p >= 1,
                ;
            }
            lemma_pow_positive(10, k as nat);
            assert(m * pow(10, k as nat) >= 0) by (nonlinear_arith)
                requires
                    m >= 0,
                    pow(10, k as nat) >= 0,
            ;
        }
        acc
    } else if (n as i128) + k > 0 {
        let keep: usize = ((n as i128) + k) as usize;
        assert(digits@.subrange(0, keep as int) =~= digits@.take(keep as int));
        capped_number(digits, 0, keep, LIMIT as u128)
    } else {
        0
    }
}

/// The whole number that `s` writes, if it is one: an optional sign and at
/// least one digit, nothing else.
pub open spec fn integer_of(s: Seq<char>) -> Option<int> {
    let from = sign_width(s, 0);
    let to = from + digit_run(s, from);
    if to > from && to == s.len() {
        let m = number_of(s.subrange(from, to)) as int;
        Some(
            if minus_at(s, 0) {
                -m
            } else {
                m
            },
        )
    } else {
        None
    }
}

/// The whole number that `s` writes, if it is one that a signed 32-bit
/// integer holds.
pub open spec fn i32_of(s: Seq<char>) -> Option<i32> {
    match integer_of(s) {
        Some(v) => if i32::MIN <= v <= i32::MAX {
            Some(v as i32)
        } else {
            None
        },
        None => None,
    }
}

/// The whole number that `s` writes, if it is one without a minus sign that
/// an unsigned 32-bit integer holds.
pub open spec fn u32_of(s: Seq<char>) -> Option<u32> {
    match integer_of(s) {
        Some(v) => if !minus_at(s, 0) && v <= u32::MAX {
            Some(v as u32)
        } else {
            None
        },
        None => None,
    }
}

/// `m`, or `cap` if `m` is beyond it.
pub open spec fn held_at(m: int, cap: int) -> int {
    if m > cap {
        cap
    } else {
        m
    }
}

/// Reads an optional sign and digits up to the end of `s`; returns whether
/// the sign is a minus, and the number that the digits write, held at 2^32
/// if it is beyond that.
fn parse_whole(s: &Vec<char>) -> (r: Option<(bool, u128)>)
    ensures
        match integer_of(s@) {
            Some(v) => r matches Some((negative, m)) && negative == minus_at(s@, 0) && m
                == held_at(
                if v < 0 {
                    -v
                } else {
                    v
                },
                0x1_0000_0000,
            ),
            None => r.is_none(),
        },
{
    let n = s.len();
    let (sign, negative) = sign_at(s, 0);
    let from: usize = sign;
    let to = scan_digits(s, from);
    if to == from || to != n {
        return None;
    }
    proof {
        lemma_digit_run(s@, from as int);
    }
    let m = capped_number(s, from, to, 0x1_0000_0000);
    Some((negative, m))
}

/// Reads `s` as a signed 32-bit whole number.
pub fn parse_i32(s: &Vec<char>) -> (r: Option<i32>)
    ensures
        r == i32_of(s@),
{
    match parse_whole(s) {
        Some((negative, m)) => {
            if negative {
                if m <= 0x8000_0000 {
                    Some((-(m as i64)) as i32)
                } else {
                    None
                }
            } else {
                if m <= 0x7fff_ffff {
                    Some(m as i32)
                } else {
                    None
                }
            }
        },
        None => None,
    }
}

/// Reads `s` as an unsigned 32-bit whole number.
pub fn parse_u32(s: &Vec<char>) -> (r: Option<u32>)
    ensures
        r == u32_of(s@),
{
    match parse_whole(s) {
        Some((negative, m)) => {
            if !negative && m <= 0xffff_ffff {
                Some(m as u32)
            } else {
                None
            }
        },
        None => None,
    }
}

/// The largest exponent that is read exactly; a greater one is held as this.
const EXPONENT_LIMIT: u128 = 1_000_000_000_000_000_000_000_000_000_000;

/// Reads `s` as a decimal literal and returns its value times ten to the
/// power `shift`, cut off toward zero and held within the limit; `None` if
/// `s` is no literal.
pub fn parse_fixed(s: &Vec<char>, shift: u8) -> (r: Option<i64>)
    ensures
        match fixed_value(s@, shift as int) {
            Some(v) => r == Some(v as i64) && -LIMIT <= v <= LIMIT,
            None => r.is_none(),
        },
{
    let n = s.len();
    let (sign, negative) = sign_at(s, 0);
    let whole_from: usize = sign;
    let whole_to = scan_digits(s, whole_from);
    let point = whole_to < n && s[whole_to] == '.';
    let frac_from: usize = if point {
        whole_to + 1
    } else {
        whole_to
    };
    let frac_to: usize = if point {
        scan_digits(s, frac_from)
    } else {
        frac_from
    };
    if (whole_to - whole_from) + (frac_to - frac_from) == 0 {
        return None;
    }
    let mut exponent: i128 = 0;
    let ghost mut true_exponent: int = 0;
    if frac_to < n {
        let mark = s[frac_to];
        if !(mark == 'e' || mark == 'E') {
            return None;
        }
        let (exp_sign, exp_negative) = sign_at(s, frac_to + 1);
        let exp_from: usize = frac_to + 1 + exp_sign;
        let exp_to = scan_digits(s, exp_from);
        if exp_to == exp_from || exp_to != n {
            return None;
        }
        proof {
            lemma_digit_run(s@, exp_from as int);
        }
        let e = capped_number(s, exp_from, exp_to, EXPONENT_LIMIT);
        proof {
            let exact = number_of(s@.subrange(exp_from as int, exp_to as int)) as int;
            true_exponent = if exp_negative {
                -exact
            } else {
                exact
            };
        }
        exponent = if exp_negative {
            -(e as i128)
        } else {
            e as i128
        };
    }
    proof {
        lemma_digit_run(s@, whole_from as int);
        if point {
            lemma_digit_run(s@, frac_from as int);
        }
    }
    let digits = join(s, whole_from, whole_to, frac_from, frac_to);
    let places: i128 = (frac_to - frac_from) as i128;
    let k: i128 = exponent - places + (shift as i128);
    let ghost true_k: int = true_exponent - places + shift;
    let m = capped_magnitude(&digits, k);
    proof {
        let lit = literal(s@).unwrap();
        assert(lit.digits == digits@);
        assert(lit.scale + shift == true_k);
        if true_k != k {
            // The exponent is beyond what is read exactly: the value is zero
            // or beyond the limit either way.
            if true_exponent > 0 {
                assert(k >= 19 && true_k >= 19);
                if number_of(digits@) >= 1 {
                    lemma_large_shift_is_capped(number_of(digits@) as int, k as nat);
                    lemma_large_shift_is_capped(number_of(digits@) as int, true_k as nat);
                } else {
                    assert(number_of(digits@) * pow(10, k as nat) == 0) by (nonlinear_arith)
                        requires
                            number_of(digits@) == 0,
                    ;
                    assert(number_of(digits@) * pow(10, true_k as nat) == 0) by (nonlinear_arith)
                        requires
                            number_of(digits@) == 0,
                    ;
                }
            } else {
                assert(digits@.len() + k <= 0 && digits@.len() + true_k <= 0);
            }
        }
        assert(capped(magnitude(digits@, true_k) as int) == m);
    }
    if negative {
        Some(-(m as i64))
    } else {
        Some(m as i64)
    }
}

} // verus!
