//! Decimal numerals: the integers and the decimal fractions that texts and
//! JSON numbers spell out, read digit by digit and compared by their exact
//! value.

use vstd::prelude::*;

verus! {

pub open spec fn is_digit(c: char) -> bool {
    '0' <= c && c <= '9'
}

pub open spec fn digit_of(c: char) -> nat {
    (c as int - '0' as int) as nat
}

pub open spec fn all_digits(s: Seq<char>) -> bool {
    forall|i: int| 0 <= i < s.len() ==> is_digit(#[trigger] s[i])
}

/// The number that a string of decimal digits spells.
pub open spec fn digits_value(s: Seq<char>) -> nat
    decreases s.len(),
{
    if s.len() == 0 {
        0
    } else {
        digits_value(s.drop_last()) * 10 + digit_of(s.last())
    }
}

pub open spec fn pow10(n: nat) -> nat
    decreases n,
{
    if n == 0 {
        1
    } else {
        10 * pow10((n - 1) as nat)
    }
}

pub proof fn lemma_pow10_positive(n: nat)
    ensures
        pow10(n) >= 1,
    decreases n,
{
    if n > 0 {
        lemma_pow10_positive((n - 1) as nat);
    }
}

pub proof fn lemma_pow10_adds(a: nat, b: nat)
    ensures
        pow10(a + b) == pow10(a) * pow10(b),
    decreases a,
{
    if a > 0 {
        lemma_pow10_adds((a - 1) as nat, b);
        assert(pow10(a + b) == 10 * pow10((a - 1 + b) as nat));
        assert(10 * (pow10((a - 1) as nat) * pow10(b)) == (10 * pow10((a - 1) as nat)) * pow10(b))
            by (nonlinear_arith);
    } else {
        assert(pow10(0) * pow10(b) == pow10(b)) by (nonlinear_arith)
            requires
                pow10(0) == 1,
        ;
    }
}

pub proof fn lemma_pow10_monotone(a: nat, b: nat)
    requires
        a <= b,
    ensures
        pow10(a) <= pow10(b),
    decreases b,
{
    if a < b {
        lemma_pow10_monotone(a, (b - 1) as nat);
        lemma_pow10_positive((b - 1) as nat);
    }
}

/// One more digit at the end: ten times the value so far, plus the digit.
pub proof fn lemma_digits_value_step(s: Seq<char>, k: int)
    requires
        0 <= k < s.len(),
    ensures
        digits_value(s.take(k + 1)) == digits_value(s.take(k)) * 10 + digit_of(s[k]),
{
    assert(s.take(k + 1).drop_last() =~= s.take(k));
}

/// A string of `n` digits spells a number below `10^n`.
pub proof fn lemma_digits_value_bound(s: Seq<char>)
    requires
        all_digits(s),
    ensures
        digits_value(s) < pow10(s.len()),
    decreases s.len(),
{
    if s.len() > 0 {
        lemma_digits_value_bound(s.drop_last());
        assert(is_digit(s[s.len() - 1]));
    }
}

/// A string of `n` digits that does not begin with `0` spells a number of at
/// least `10^(n-1)`.
pub proof fn lemma_digits_value_floor(s: Seq<char>)
    requires
        all_digits(s),
        s.len() > 0,
        s[0] != '0',
    ensures
        digits_value(s) >= pow10((s.len() - 1) as nat),
    decreases s.len(),
{
    assert(is_digit(s[0]));
    if s.len() == 1 {
        assert(s.drop_last().len() == 0);
    } else {
        assert(s.drop_last()[0] == s[0]);
        lemma_digits_value_floor(s.drop_last());
    }
}

/// Zeros in front change nothing.
pub proof fn lemma_digits_value_leading_zeros(s: Seq<char>, z: int)
    requires
        0 <= z <= s.len(),
        forall|i: int| 0 <= i < z ==> s[i] == '0',
    ensures
        digits_value(s) == digits_value(s.skip(z)),
    decreases s.len(),
{
    if z == s.len() {
        assert(s.skip(z).len() == 0);
        if s.len() > 0 {
            lemma_digits_value_leading_zeros(s.drop_last(), z - 1);
            assert(s.drop_last().skip(z - 1).len() == 0);
        }
    } else {
        lemma_digits_value_leading_zeros(s.drop_last(), z);
        assert(s.drop_last().skip(z) =~= s.skip(z).drop_last());
        assert(s.skip(z).last() == s.last());
    }
}

/// A prefix spells no more than the whole string.
pub proof fn lemma_digits_value_prefix(s: Seq<char>, k: int)
    requires
        0 <= k <= s.len(),
    ensures
        digits_value(s.take(k)) <= digits_value(s),
    decreases s.len() - k,
{
    if k < s.len() {
        lemma_digits_value_step(s, k);
        lemma_digits_value_prefix(s, k + 1);
    } else {
        assert(s.take(k) =~= s);
    }
}

/// The integer that a text spells in the way of `str::parse` for the integer
/// types: an optional sign, then one digit or more and nothing else.
pub open spec fn integer_of(s: Seq<char>) -> Option<int> {
    let signed = s.len() > 0 && (s[0] == '-' || s[0] == '+');
    let digits = if signed {
        s.skip(1)
    } else {
        s
    };
    if digits.len() == 0 || !all_digits(digits) {
        None
    } else if signed && s[0] == '-' {
        Some(-(digits_value(digits) as int))
    } else {
        Some(digits_value(digits) as int)
    }
}

pub fn digit_value(c: char) -> (r: Option<u8>)
    ensures
        r is Some == is_digit(c),
        is_digit(c) ==> r == Some(digit_of(c) as u8),
{
    if '0' <= c && c <= '9' {
        Some(((c as u32) - ('0' as u32)) as u8)
    } else {
        None
    }
}

/// Reads a text as an integer of 64 bits: `None` where the text spells no
/// integer, or one that does not fit.
pub fn parse_i64(s: &Vec<char>) -> (r: Option<i64>)
    ensures
        r == match integer_of(s@) {
            Some(v) => if i64::MIN <= v <= i64::MAX {
                Some(v as i64)
            } else {
                None
            },
            None => None,
        },
{
    let n = s.len();
    if n == 0 {
        return None;
    }
    let signed = s[0] == '-' || s[0] == '+';
    let negative = s[0] == '-';
    let start: usize = if signed {
        1
    } else {
        0
    };
    if start == n {
        return None;
    }
    let ghost digits = s@.skip(start as int);
    proof {
        assert(s@.skip(0) =~= s@);
        assert(forall|k: int| 0 <= k < digits.len() ==> digits[k] == s@[start + k]);
    }
    let mut acc: u128 = 0;
    let mut i: usize = start;
    while i < n
        invariant
            start <= i <= n,
            n == s.len(),
            digits.len() == n - start,
            digits.len() > 0,
            signed == (s@.len() > 0 && (s@[0] == '-' || s@[0] == '+')),
            digits == if signed {
                s@.skip(1)
            } else {
                s@
            },
            forall|k: int| 0 <= k < digits.len() ==> digits[k] == s@[start + k],
            forall|k: int| 0 <= k < i - start ==> is_digit(#[trigger] digits[k]),
            acc == digits_value(digits.take(i - start)),
            acc <= 0x8000_0000_0000_0000,
        decreases n - i,
    {
        let d = match digit_value(s[i]) {
            Some(d) => d,
            None => {
                assert(!is_digit(digits[i - start]));
                return None;
            },
        };
        proof {
            lemma_digits_value_step(digits, i - start);
        }
        acc = acc * 10 + d as u128;
        if acc > 0x8000_0000_0000_0000 {
            proof {
                lemma_digits_value_prefix(digits, i - start + 1);
            }
            let rest_ok = all_digits_from(s, i + 1);
            proof {
                if rest_ok {
                    assert forall|k: int| 0 <= k < digits.len() implies is_digit(
                        #[trigger] digits[k],
                    ) by {
                        if k > i - start {
                            assert(is_digit(s@[start + k]));
                        }
                    }
                } else {
                    let k = choose|k: int| i + 1 <= k < s@.len() && !is_digit(s@[k]);
                    assert(!is_digit(digits[k - start]));
                }
            }
            return None;
        }
        i += 1;
    }
    assert(digits.take(i - start) =~= digits);
    if negative {
        if acc == 0x8000_0000_0000_0000 {
            Some(i64::MIN)
        } else {
            Some(-(acc as i64))
        }
    } else if acc == 0x8000_0000_0000_0000 {
        None
    } else {
        Some(acc as i64)
    }
}

/// The natural number that a text spells in the way of `str::parse` for
/// the unsigned integer types: an optional `+`, then one digit or more and
/// nothing else.
pub open spec fn natural_of(s: Seq<char>) -> Option<int> {
    let signed = s.len() > 0 && s[0] == '+';
    let digits = if signed {
        s.skip(1)
    } else {
        s
    };
    if digits.len() == 0 || !all_digits(digits) {
        None
    } else {
        Some(digits_value(digits) as int)
    }
}

/// Reads a text as an unsigned integer of 64 bits: `None` where the text
/// spells no natural number, or one that does not fit.
pub fn parse_u64(s: &Vec<char>) -> (r: Option<u64>)
    ensures
        r == match natural_of(s@) {
            Some(v) => if v <= u64::MAX {
                Some(v as u64)
            } else {
                None
            },
            None => None,
        },
{
    let n = s.len();
    if n == 0 {
        return None;
    }
    let signed = s[0] == '+';
    let start: usize = if signed {
        1
    } else {
        0
    };
    if start == n {
        return None;
    }
    let ghost digits = s@.skip(start as int);
    proof {
        assert(s@.skip(0) =~= s@);
        assert(forall|k: int| 0 <= k < digits.len() ==> digits[k] == s@[start + k]);
    }
    let mut acc: u128 = 0;
    let mut i: usize = start;
    while i < n
        invariant
            start <= i <= n,
            n == s.len(),
            digits.len() == n - start,
            digits.len() > 0,
            signed == (s@.len() > 0 && s@[0] == '+'),
            digits == if signed {
                s@.skip(1)
            } else {
                s@
            },
            forall|k: int| 0 <= k < digits.len() ==> digits[k] == s@[start + k],
            forall|k: int| 0 <= k < i - start ==> is_digit(#[trigger] digits[k]),
            acc == digits_value(digits.take(i - start)),
            acc <= u64::MAX,
        decreases n - i,
    {
        let d = match digit_value(s[i]) {
            Some(d) => d,
            None => {
                assert(!is_digit(digits[i - start]));
                return None;
            },
        };
        proof {
            lemma_digits_value_step(digits, i - start);
        }
        acc = acc * 10 + d as u128;
        if acc > 0xffff_ffff_ffff_ffff {
            proof {
                lemma_digits_value_prefix(digits, i - start + 1);
            }
            let rest_ok = all_digits_from(s, i + 1);
            proof {
                if rest_ok {
                    assert forall|k: int| 0 <= k < digits.len() implies is_digit(
                        #[trigger] digits[k],
                    ) by {
                        if k > i - start {
                            assert(is_digit(s@[start + k]));
                        }
                    }
                } else {
                    let k = choose|k: int| i + 1 <= k < s@.len() && !is_digit(s@[k]);
                    assert(!is_digit(digits[k - start]));
                }
            }
            return None;
        }
        i += 1;
    }
    assert(digits.take(i - start) =~= digits);
    Some(acc as u64)
}

/// Whether every character from offset `from` on is a decimal digit.
pub fn all_digits_from(s: &Vec<char>, from: usize) -> (r: bool)
    requires
        from <= s.len(),
    ensures
        r == (forall|k: int| from <= k < s@.len() ==> is_digit(#[trigger] s@[k])),
{
    let mut j: usize = from;
    while j < s.len()
        invariant
            from <= j <= s.len(),
            forall|k: int| from <= k < j ==> is_digit(#[trigger] s@[k]),
        decreases s.len() - j,
    {
        if digit_value(s[j]).is_none() {
            return false;
        }
        j += 1;
    }
    true
}


pub open spec fn zeros(n: nat) -> Seq<char> {
    Seq::new(n, |i: int| '0')
}

/// Zeros behind multiply by a power of ten.
pub proof fn lemma_digits_value_trailing_zeros(s: Seq<char>, n: nat)
    ensures
        digits_value(s + zeros(n)) == digits_value(s) * pow10(n),
    decreases n,
{
    if n == 0 {
        assert(s + zeros(0) =~= s);
        assert(digits_value(s) * 1 == digits_value(s)) by (nonlinear_arith);
    } else {
        let t = s + zeros(n);
        assert(t.drop_last() =~= s + zeros((n - 1) as nat));
        assert(t.last() == '0');
        lemma_digits_value_trailing_zeros(s, (n - 1) as nat);
        assert(digits_value(s) * pow10((n - 1) as nat) * 10 == digits_value(s) * (10 * pow10(
            (n - 1) as nat,
        ))) by (nonlinear_arith);
    }
}

/// Of two digit strings of one length, the one whose prefix spells less
/// spells less.
pub proof fn lemma_digits_value_prefix_decides(x: Seq<char>, y: Seq<char>, k: int)
    requires
        x.len() == y.len(),
        0 <= k <= x.len(),
        all_digits(x),
        all_digits(y),
        digits_value(x.take(k)) < digits_value(y.take(k)),
    ensures
        digits_value(x) < digits_value(y),
    decreases x.len() - k,
{
    if k == x.len() {
        assert(x.take(k) =~= x);
        assert(y.take(k) =~= y);
    } else {
        lemma_digits_value_step(x, k);
        lemma_digits_value_step(y, k);
        assert(is_digit(x[k]) && is_digit(y[k]));
        lemma_digits_value_prefix_decides(x, y, k + 1);
    }
}

/// A finite decimal number: `mantissa * 10^exponent`, negated where
/// `negative` holds.
pub struct DecimalView {
    pub negative: bool,
    pub mantissa: nat,
    pub exponent: int,
}

/// What a numeral stands for.
pub enum NumeralView {
    NotANumber,
    Infinite { negative: bool },
    Finite(DecimalView),
}

/// The mantissa of `d` written with the exponent `m`, which is at most the
/// exponent of `d`.
pub open spec fn scaled(d: DecimalView, m: int) -> int {
    (d.mantissa * pow10((d.exponent - m) as nat)) as int
}

pub open spec fn signed_scaled(d: DecimalView, m: int) -> int {
    if d.negative {
        -scaled(d, m)
    } else {
        scaled(d, m)
    }
}

pub open spec fn min_exponent(a: DecimalView, b: DecimalView) -> int {
    if a.exponent <= b.exponent {
        a.exponent
    } else {
        b.exponent
    }
}

pub open spec fn sign_of(v: int) -> int {
    if v < 0 {
        -1
    } else if v == 0 {
        0
    } else {
        1
    }
}

/// How the absolute values of two decimals compare: -1, 0 or 1.
pub open spec fn magnitude_order(a: DecimalView, b: DecimalView) -> int {
    sign_of(scaled(a, min_exponent(a, b)) - scaled(b, min_exponent(a, b)))
}

/// How two decimals compare by value: -1, 0 or 1. Both are written with the
/// smaller of the two exponents, which makes them integers.
pub open spec fn decimal_order(a: DecimalView, b: DecimalView) -> int {
    sign_of(signed_scaled(a, min_exponent(a, b)) - signed_scaled(b, min_exponent(a, b)))
}

/// How two numerals compare: `None` where either is not a number.
pub open spec fn numeral_order(a: NumeralView, b: NumeralView) -> Option<int> {
    match (a, b) {
        (NumeralView::NotANumber, _) => None,
        (_, NumeralView::NotANumber) => None,
        (NumeralView::Infinite { negative: x }, NumeralView::Infinite { negative: y }) => Some(
            if x == y {
                0
            } else if x {
                -1
            } else {
                1
            },
        ),
        (NumeralView::Infinite { negative: x }, NumeralView::Finite(_)) => Some(
            if x {
                -1
            } else {
                1
            },
        ),
        (NumeralView::Finite(_), NumeralView::Infinite { negative: y }) => Some(
            if y {
                1
            } else {
                -1
            },
        ),
        (NumeralView::Finite(x), NumeralView::Finite(y)) => Some(decimal_order(x, y)),
    }
}

/// A finite decimal as its digits and a power of ten.
pub struct Decimal {
    pub negative: bool,
    pub digits: Vec<char>,
    pub exponent: i128,
}

pub const EXPONENT_LIMIT: i128 = 0x1_0000_0000_0000_0000_0000;

impl Decimal {
    pub open spec fn wf(&self) -> bool {
        &&& all_digits(self.digits@)
        &&& -EXPONENT_LIMIT <= self.exponent <= EXPONENT_LIMIT
    }
}

impl View for Decimal {
    type V = DecimalView;

    open spec fn view(&self) -> DecimalView {
        DecimalView {
            negative: self.negative,
            mantissa: digits_value(self.digits@),
            exponent: self.exponent as int,
        }
    }
}

/// The offset of the first digit that is not `0`, or the length.
fn leading_zeros(digits: &Vec<char>) -> (z: usize)
    ensures
        z <= digits.len(),
        forall|i: int| 0 <= i < z ==> digits@[i] == '0',
        z < digits.len() ==> digits@[z as int] != '0',
{
    let mut z: usize = 0;
    while z < digits.len() && digits[z] == '0'
        invariant
            z <= digits.len(),
            forall|i: int| 0 <= i < z ==> digits@[i] == '0',
        decreases digits.len() - z,
    {
        z += 1;
    }
    z
}

proof fn lemma_zero_digits(s: Seq<char>)
    requires
        forall|i: int| 0 <= i < s.len() ==> s[i] == '0',
    ensures
        digits_value(s) == 0,
{
    lemma_digits_value_leading_zeros(s, s.len() as int);
    assert(s.skip(s.len() as int).len() == 0);
}

proof fn lemma_nonzero_digits(s: Seq<char>, z: int)
    requires
        all_digits(s),
        0 <= z < s.len(),
        forall|i: int| 0 <= i < z ==> s[i] == '0',
        s[z] != '0',
    ensures
        digits_value(s) > 0,
{
    lemma_digits_value_leading_zeros(s, z);
    let t = s.skip(z);
    assert forall|k: int| 0 <= k < t.len() implies is_digit(#[trigger] t[k]) by {
        assert(is_digit(s[z + k]));
    }
    lemma_digits_value_floor(t);
    lemma_pow10_positive((t.len() - 1) as nat);
}

/// The significant digits of `d`, followed by as many zeros as writing it
/// with the exponent `m` takes.
spec fn padded(d: Decimal, z: int, m: int) -> Seq<char> {
    d.digits@.skip(z) + zeros((d.exponent - m) as nat)
}

proof fn lemma_padded(d: Decimal, z: int, m: int)
    requires
        d.wf(),
        0 <= z <= d.digits@.len(),
        forall|i: int| 0 <= i < z ==> d.digits@[i] == '0',
        m <= d.exponent,
    ensures
        digits_value(padded(d, z, m)) == scaled(d@, m),
        all_digits(padded(d, z, m)),
        padded(d, z, m).len() == d.digits@.len() - z + (d.exponent - m),
        forall|k: int|
            0 <= k < padded(d, z, m).len() ==> padded(d, z, m)[k] == if k < d.digits@.len() - z {
                d.digits@[z + k]
            } else {
                '0'
            },
{
    lemma_digits_value_leading_zeros(d.digits@, z);
    lemma_digits_value_trailing_zeros(d.digits@.skip(z), (d.exponent - m) as nat);
    let p = padded(d, z, m);
    assert forall|k: int| 0 <= k < p.len() implies is_digit(#[trigger] p[k]) by {
        if k < d.digits@.len() - z {
            assert(is_digit(d.digits@[z + k]));
        }
    }
}

impl Decimal {
    /// How the absolute values of two decimals compare.
    pub fn magnitude_order(&self, other: &Decimal) -> (r: i8)
        requires
            self.wf(),
            other.wf(),
        ensures
            r as int == magnitude_order(self@, other@),
    {
        let za = leading_zeros(&self.digits);
        let zb = leading_zeros(&other.digits);
        let ghost m = min_exponent(self@, other@);
        let ghost x = padded(*self, za as int, m);
        let ghost y = padded(*other, zb as int, m);
        proof {
            lemma_padded(*self, za as int, m);
            lemma_padded(*other, zb as int, m);
            lemma_pow10_positive((self.exponent - m) as nat);
            lemma_pow10_positive((other.exponent - m) as nat);
        }
        let a_zero = za == self.digits.len();
        let b_zero = zb == other.digits.len();
        if a_zero || b_zero {
            proof {
                if a_zero {
                    lemma_zero_digits(self.digits@);
                } else {
                    assert(x[0] != '0');
                    lemma_digits_value_floor(x);
                    lemma_pow10_positive((x.len() - 1) as nat);
                }
                if b_zero {
                    lemma_zero_digits(other.digits@);
                } else {
                    assert(y[0] != '0');
                    lemma_digits_value_floor(y);
                    lemma_pow10_positive((y.len() - 1) as nat);
                }
                assert(0 * pow10((self.exponent - m) as nat) == 0) by (nonlinear_arith);
                assert(0 * pow10((other.exponent - m) as nat) == 0) by (nonlinear_arith);
            }
            return if a_zero && b_zero {
                0
            } else if a_zero {
                -1
            } else {
                1
            };
        }
        let la: usize = self.digits.len() - za;
        let lb: usize = other.digits.len() - zb;
        let top_a: i128 = la as i128 + self.exponent;
        let top_b: i128 = lb as i128 + other.exponent;
        proof {
            assert(x[0] != '0');
            assert(y[0] != '0');
            lemma_digits_value_floor(x);
            lemma_digits_value_floor(y);
            lemma_digits_value_bound(x);
            lemma_digits_value_bound(y);
        }
        if top_a < top_b {
            proof {
                lemma_pow10_monotone(x.len(), (y.len() - 1) as nat);
            }
            return -1;
        }
        if top_a > top_b {
            proof {
                lemma_pow10_monotone(y.len(), (x.len() - 1) as nat);
            }
            return 1;
        }
        let total: usize = if la >= lb {
            la
        } else {
            lb
        };
        assert(x.len() == total && y.len() == total);
        let mut k: usize = 0;
        while k < total
            invariant
                0 <= k <= total,
                x.len() == total,
                y.len() == total,
                all_digits(x),
                all_digits(y),
                la == self.digits.len() - za,
                lb == other.digits.len() - zb,
                za <= self.digits.len(),
                zb <= other.digits.len(),
                forall|j: int|
                    0 <= j < total ==> x[j] == if j < la {
                        self.digits@[za + j]
                    } else {
                        '0'
                    },
                forall|j: int|
                    0 <= j < total ==> y[j] == if j < lb {
                        other.digits@[zb + j]
                    } else {
                        '0'
                    },
                digits_value(x.take(k as int)) == digits_value(y.take(k as int)),
                digits_value(x) == scaled(self@, m),
                digits_value(y) == scaled(other@, m),
                m == min_exponent(self@, other@),
            decreases total - k,
        {
            let ca: char = if k < la {
                self.digits[za + k]
            } else {
                '0'
            };
            let cb: char = if k < lb {
                other.digits[zb + k]
            } else {
                '0'
            };
            proof {
                lemma_digits_value_step(x, k as int);
                lemma_digits_value_step(y, k as int);
                assert(ca == x[k as int] && cb == y[k as int]);
                assert(is_digit(x[k as int]) && is_digit(y[k as int]));
            }
            if ca < cb {
                proof {
                    lemma_digits_value_prefix_decides(x, y, k + 1);
                }
                return -1;
            }
            if ca > cb {
                proof {
                    lemma_digits_value_prefix_decides(y, x, k + 1);
                }
                return 1;
            }
            k += 1;
        }
        proof {
            assert(x.take(k as int) =~= x);
            assert(y.take(k as int) =~= y);
        }
        0
    }

    /// How two decimals compare by value.
    pub fn order(&self, other: &Decimal) -> (r: i8)
        requires
            self.wf(),
            other.wf(),
        ensures
            r as int == decimal_order(self@, other@),
    {
        let ghost m = min_exponent(self@, other@);
        proof {
            lemma_pow10_positive((self.exponent - m) as nat);
            lemma_pow10_positive((other.exponent - m) as nat);
            assert(scaled(self@, m) >= 0) by (nonlinear_arith)
                requires
                    scaled(self@, m) == self@.mantissa * pow10((self.exponent - m) as nat),
                    pow10((self.exponent - m) as nat) >= 1,
            ;
            assert(scaled(other@, m) >= 0) by (nonlinear_arith)
                requires
                    scaled(other@, m) == other@.mantissa * pow10((other.exponent - m) as nat),
                    pow10((other.exponent - m) as nat) >= 1,
            ;
        }
        let mag = self.magnitude_order(other);
        if self.negative && other.negative {
            -mag
        } else if !self.negative && !other.negative {
            mag
        } else {
            let za = leading_zeros(&self.digits);
            let zb = leading_zeros(&other.digits);
            let a_zero = za == self.digits.len();
            let b_zero = zb == other.digits.len();
            proof {
                if a_zero {
                    lemma_zero_digits(self.digits@);
                    assert(0 * pow10((self.exponent - m) as nat) == 0) by (nonlinear_arith);
                } else {
                    lemma_nonzero_digits(self.digits@, za as int);
                    assert(scaled(self@, m) > 0) by (nonlinear_arith)
                        requires
                            scaled(self@, m) == self@.mantissa * pow10(
                                (self.exponent - m) as nat,
                            ),
                            pow10((self.exponent - m) as nat) >= 1,
                            self@.mantissa > 0,
                    ;
                }
                if b_zero {
                    lemma_zero_digits(other.digits@);
                    assert(0 * pow10((other.exponent - m) as nat) == 0) by (nonlinear_arith);
                } else {
                    lemma_nonzero_digits(other.digits@, zb as int);
                    assert(scaled(other@, m) > 0) by (nonlinear_arith)
                        requires
                            scaled(other@, m) == other@.mantissa * pow10(
                                (other.exponent - m) as nat,
                            ),
                            pow10((other.exponent - m) as nat) >= 1,
                            other@.mantissa > 0,
                    ;
                }
            }
            if a_zero && b_zero {
                0
            } else if self.negative {
                -1
            } else {
                1
            }
        }
    }
}


/// A numeral: a finite decimal, an infinity, or the mark of a failed
/// computation.
pub enum Numeral {
    NotANumber,
    Infinite { negative: bool },
    Finite(Decimal),
}

impl Numeral {
    pub open spec fn wf(&self) -> bool {
        match self {
            Numeral::Finite(d) => d.wf(),
            _ => true,
        }
    }

    /// As `wf`, with room left to raise or lower the power of ten.
    pub open spec fn fresh(&self) -> bool {
        match self {
            Numeral::Finite(d) => d.wf() && -0x4_0000_0000_0000_0000 <= d.exponent
                <= 0x4_0000_0000_0000_0000,
            _ => true,
        }
    }

    /// A hundred times the numeral.
    pub fn times_hundred(self) -> (r: Numeral)
        requires
            self.fresh(),
        ensures
            r.wf(),
            r@ == times_hundred(self@),
    {
        match self {
            Numeral::Finite(d) => Numeral::Finite(
                Decimal { negative: d.negative, digits: d.digits, exponent: d.exponent + 2 },
            ),
            other => other,
        }
    }

    /// How two numerals compare: -1, 0 or 1, and `None` where either is not
    /// a number.
    pub fn order(&self, other: &Numeral) -> (r: Option<i8>)
        requires
            self.wf(),
            other.wf(),
        ensures
            r is Some == numeral_order(self@, other@) is Some,
            r is Some ==> r->0 as int == numeral_order(self@, other@)->0,
    {
        match (self, other) {
            (Numeral::NotANumber, _) => None,
            (_, Numeral::NotANumber) => None,
            (Numeral::Infinite { negative: x }, Numeral::Infinite { negative: y }) => Some(
                if *x == *y {
                    0
                } else if *x {
                    -1
                } else {
                    1
                },
            ),
            (Numeral::Infinite { negative: x }, Numeral::Finite(_)) => Some(
                if *x {
                    -1
                } else {
                    1
                },
            ),
            (Numeral::Finite(_), Numeral::Infinite { negative: y }) => Some(
                if *y {
                    1
                } else {
                    -1
                },
            ),
            (Numeral::Finite(x), Numeral::Finite(y)) => Some(x.order(y)),
        }
    }
}

impl View for Numeral {
    type V = NumeralView;

    open spec fn view(&self) -> NumeralView {
        match self {
            Numeral::NotANumber => NumeralView::NotANumber,
            Numeral::Infinite { negative } => NumeralView::Infinite { negative: *negative },
            Numeral::Finite(d) => NumeralView::Finite(d@),
        }
    }
}

/// How many decimal digits a text begins with.
pub open spec fn digit_run(s: Seq<char>) -> int
    decreases s.len(),
{
    if s.len() > 0 && is_digit(s[0]) {
        1 + digit_run(s.drop_first())
    } else {
        0
    }
}

pub proof fn lemma_digit_run_is(s: Seq<char>, n: int)
    requires
        0 <= n <= s.len(),
        forall|k: int| 0 <= k < n ==> is_digit(#[trigger] s[k]),
        n < s.len() ==> !is_digit(s[n]),
    ensures
        digit_run(s) == n,
    decreases s.len(),
{
    if n > 0 {
        assert(is_digit(s[0]));
        let t = s.drop_first();
        assert forall|k: int| 0 <= k < n - 1 implies is_digit(#[trigger] t[k]) by {
            assert(is_digit(s[k + 1]));
        }
        lemma_digit_run_is(t, n - 1);
    }
}

pub open spec fn is_letter(c: char, lower: char, upper: char) -> bool {
    c == lower || c == upper
}

/// `nan`, in either case of each letter.
pub open spec fn is_nan_word(b: Seq<char>) -> bool {
    &&& b.len() == 3
    &&& is_letter(b[0], 'n', 'N')
    &&& is_letter(b[1], 'a', 'A')
    &&& is_letter(b[2], 'n', 'N')
}

/// `inf` or `infinity`, in either case of each letter.
pub open spec fn is_inf_word(b: Seq<char>) -> bool {
    &&& b.len() == 3 || b.len() == 8
    &&& is_letter(b[0], 'i', 'I')
    &&& is_letter(b[1], 'n', 'N')
    &&& is_letter(b[2], 'f', 'F')
    &&& b.len() == 8 ==> {
        &&& is_letter(b[3], 'i', 'I')
        &&& is_letter(b[4], 'n', 'N')
        &&& is_letter(b[5], 'i', 'I')
        &&& is_letter(b[6], 't', 'T')
        &&& is_letter(b[7], 'y', 'Y')
    }
}

/// The finite numeral that a text without sign spells: digits with at
/// most one point among them and, behind an `e`, a power of ten that fits
/// in 64 bits.
pub open spec fn finite_of(body: Seq<char>, negative: bool) -> Option<NumeralView> {
    let p = digit_run(body);
    let has_point = p < body.len() && body[p] == '.';
    let frac_start = if has_point {
        p + 1
    } else {
        p
    };
    let f = digit_run(body.skip(frac_start));
    let q = frac_start + f;
    let mantissa = digits_value(body.take(p) + body.subrange(frac_start, q));
    if p + f == 0 {
        None
    } else if q == body.len() {
        Some(NumeralView::Finite(DecimalView { negative, mantissa, exponent: -f }))
    } else if body[q] == 'e' || body[q] == 'E' {
        match integer_of(body.skip(q + 1)) {
            Some(e) => if i64::MIN <= e <= i64::MAX {
                Some(NumeralView::Finite(DecimalView { negative, mantissa, exponent: e - f }))
            } else {
                None
            },
            None => None,
        }
    } else {
        None
    }
}

/// The numeral that a text spells: an optional sign, then `nan`, `inf`,
/// `infinity` or a finite numeral. `None` for any other text.
pub open spec fn numeral_of(s: Seq<char>) -> Option<NumeralView> {
    let signed = s.len() > 0 && (s[0] == '-' || s[0] == '+');
    let negative = signed && s[0] == '-';
    let body = if signed {
        s.skip(1)
    } else {
        s
    };
    if is_nan_word(body) {
        Some(NumeralView::NotANumber)
    } else if is_inf_word(body) {
        Some(NumeralView::Infinite { negative })
    } else {
        finite_of(body, negative)
    }
}

/// A copy of the characters from offset `from` on.
pub fn tail_of(s: &Vec<char>, from: usize) -> (r: Vec<char>)
    requires
        from <= s.len(),
    ensures
        r@ == s@.skip(from as int),
{
    let mut out: Vec<char> = Vec::new();
    let mut i: usize = from;
    while i < s.len()
        invariant
            from <= i <= s.len(),
            out@ == s@.subrange(from as int, i as int),
        decreases s.len() - i,
    {
        out.push(s[i]);
        assert(out@ =~= s@.subrange(from as int, i + 1));
        i += 1;
    }
    assert(out@ =~= s@.skip(from as int));
    out
}

/// Moves the digits that `s` holds from offset `from` on to the end of `out`.
fn take_digits(s: &Vec<char>, from: usize, out: &mut Vec<char>) -> (n: usize)
    requires
        from <= s.len(),
        all_digits(old(out)@),
    ensures
        n == digit_run(s@.skip(from as int)),
        from + n <= s.len(),
        final(out)@ == old(out)@ + s@.subrange(from as int, from + n),
        all_digits(final(out)@),
{
    let mut i: usize = from;
    while i < s.len() && digit_value(s[i]).is_some()
        invariant
            from <= i <= s.len(),
            out@ == old(out)@ + s@.subrange(from as int, i as int),
            all_digits(out@),
            forall|k: int| from <= k < i ==> is_digit(#[trigger] s@[k]),
        decreases s.len() - i,
    {
        out.push(s[i]);
        assert(out@ =~= old(out)@ + s@.subrange(from as int, i + 1));
        i += 1;
    }
    proof {
        let t = s@.skip(from as int);
        assert forall|k: int| 0 <= k < i - from implies is_digit(#[trigger] t[k]) by {
            assert(is_digit(s@[from + k]));
        }
        lemma_digit_run_is(t, i - from);
    }
    i - from
}

fn letter(c: char, lower: char, upper: char) -> (r: bool)
    ensures
        r == is_letter(c, lower, upper),
{
    c == lower || c == upper
}

fn nan_word(b: &Vec<char>) -> (r: bool)
    ensures
        r == is_nan_word(b@),
{
    b.len() == 3 && letter(b[0], 'n', 'N') && letter(b[1], 'a', 'A') && letter(b[2], 'n', 'N')
}

fn inf_word(b: &Vec<char>) -> (r: bool)
    ensures
        r == is_inf_word(b@),
{
    if b.len() != 3 && b.len() != 8 {
        return false;
    }
    if !(letter(b[0], 'i', 'I') && letter(b[1], 'n', 'N') && letter(b[2], 'f', 'F')) {
        return false;
    }
    b.len() == 3 || (letter(b[3], 'i', 'I') && letter(b[4], 'n', 'N') && letter(b[5], 'i', 'I')
        && letter(b[6], 't', 'T') && letter(b[7], 'y', 'Y'))
}

fn parse_finite(body: &Vec<char>, negative: bool) -> (r: Option<Numeral>)
    ensures
        r is Some == finite_of(body@, negative) is Some,
        r is Some ==> r->0.wf() && r->0.fresh() && r->0@ == finite_of(body@, negative)->0,
{
    let mut digits: Vec<char> = Vec::new();
    let p = take_digits(body, 0, &mut digits);
    assert(body@.skip(0) =~= body@);
    assert(digits@ =~= body@.take(p as int));
    let has_point = p < body.len() && body[p] == '.';
    let frac_start: usize = if has_point {
        p + 1
    } else {
        p
    };
    let f = take_digits(body, frac_start, &mut digits);
    let q: usize = frac_start + f;
    if p == 0 && f == 0 {
        return None;
    }
    if q == body.len() {
        return Some(Numeral::Finite(Decimal { negative, digits, exponent: -(f as i128) }));
    }
    if body[q] == 'e' || body[q] == 'E' {
        let tail = tail_of(body, q + 1);
        match parse_i64(&tail) {
            Some(e) => Some(
                Numeral::Finite(Decimal { negative, digits, exponent: e as i128 - f as i128 }),
            ),
            None => None,
        }
    } else {
        None
    }
}

/// Reads a text as a numeral.
pub fn parse_numeral(s: &Vec<char>) -> (r: Option<Numeral>)
    ensures
        r is Some == numeral_of(s@) is Some,
        r is Some ==> r->0.wf() && r->0.fresh() && r->0@ == numeral_of(s@)->0,
{
    let signed = s.len() > 0 && (s[0] == '-' || s[0] == '+');
    let negative = signed && s[0] == '-';
    let body = tail_of(
        s,
        if signed {
            1
        } else {
            0
        },
    );
    assert(s@.skip(0) =~= s@);
    if nan_word(&body) {
        Some(Numeral::NotANumber)
    } else if inf_word(&body) {
        Some(Numeral::Infinite { negative })
    } else {
        parse_finite(&body, negative)
    }
}

pub open spec fn digit_char(d: nat) -> char {
    if d == 0 {
        '0'
    } else if d == 1 {
        '1'
    } else if d == 2 {
        '2'
    } else if d == 3 {
        '3'
    } else if d == 4 {
        '4'
    } else if d == 5 {
        '5'
    } else if d == 6 {
        '6'
    } else if d == 7 {
        '7'
    } else if d == 8 {
        '8'
    } else {
        '9'
    }
}

/// The decimal digits of a number, without zeros in front.
pub open spec fn digits_of(n: nat) -> Seq<char>
    decreases n,
{
    if n < 10 {
        seq![digit_char(n)]
    } else {
        digits_of(n / 10).push(digit_char(n % 10))
    }
}

/// The digits of a number spell that number.
pub proof fn lemma_digits_of(n: nat)
    ensures
        all_digits(digits_of(n)),
        digits_value(digits_of(n)) == n,
        digits_of(n).len() >= 1,
    decreases n,
{
    let s = digits_of(n);
    if n < 10 {
        assert(s.drop_last() =~= Seq::<char>::empty());
        assert(digits_value(s.drop_last()) == 0);
        assert(digit_of(digit_char(n)) == n);
    } else {
        lemma_digits_of(n / 10);
        assert(s.drop_last() =~= digits_of(n / 10));
        assert(digit_of(digit_char(n % 10)) == n % 10);
        assert forall|i: int| 0 <= i < s.len() implies is_digit(#[trigger] s[i]) by {
            if i < s.len() - 1 {
                assert(s[i] == digits_of(n / 10)[i]);
            }
        }
    }
}

fn digit_to_char(d: u64) -> (r: char)
    requires
        d < 10,
    ensures
        r == digit_char(d as nat),
{
    if d == 0 {
        '0'
    } else if d == 1 {
        '1'
    } else if d == 2 {
        '2'
    } else if d == 3 {
        '3'
    } else if d == 4 {
        '4'
    } else if d == 5 {
        '5'
    } else if d == 6 {
        '6'
    } else if d == 7 {
        '7'
    } else if d == 8 {
        '8'
    } else {
        '9'
    }
}

fn push_digits(n: u64, out: &mut Vec<char>)
    ensures
        final(out)@ == old(out)@ + digits_of(n as nat),
    decreases n,
{
    if n >= 10 {
        push_digits(n / 10, out);
    }
    out.push(digit_to_char(n % 10));
    proof {
        if n >= 10 {
            assert(out@ =~= old(out)@ + digits_of(n as nat));
        } else {
            assert(out@ =~= old(out)@ + digits_of(n as nat));
        }
    }
}

/// The decimal digits of a number.
pub fn u64_digits(n: u64) -> (r: Vec<char>)
    ensures
        r@ == digits_of(n as nat),
{
    let mut out: Vec<char> = Vec::new();
    push_digits(n, &mut out);
    assert(out@ =~= digits_of(n as nat));
    out
}

impl Decimal {
    /// The decimal that a whole number is.
    pub fn from_u64(n: u64) -> (r: Decimal)
        ensures
            r.wf(),
            r@ == (DecimalView { negative: false, mantissa: n as nat, exponent: 0 }),
    {
        proof {
            lemma_digits_of(n as nat);
        }
        Decimal { negative: false, digits: u64_digits(n), exponent: 0 }
    }
}

/// A hundred times a numeral.
pub open spec fn times_hundred(n: NumeralView) -> NumeralView {
    match n {
        NumeralView::Finite(d) => NumeralView::Finite(
            DecimalView { exponent: d.exponent + 2, ..d },
        ),
        other => other,
    }
}


/// The sign of a difference does not change when both sides are multiplied
/// by a positive number.
proof fn lemma_sign_scales(a: int, b: int, p: int)
    requires
        p >= 1,
    ensures
        sign_of(a * p - b * p) == sign_of(a - b),
{
    assert(a * p - b * p == (a - b) * p) by (nonlinear_arith);
    if a - b > 0 {
        assert((a - b) * p > 0) by (nonlinear_arith)
            requires
                a - b > 0,
                p >= 1,
        ;
    } else if a - b < 0 {
        assert((a - b) * p < 0) by (nonlinear_arith)
            requires
                a - b < 0,
                p >= 1,
        ;
    } else {
        assert((a - b) * p == 0) by (nonlinear_arith)
            requires
                a - b == 0,
        ;
    }
}

/// Written with a smaller exponent, a decimal is so many powers of ten
/// larger.
proof fn lemma_scaled_further(d: DecimalView, m: int, lower: int)
    requires
        lower <= m <= d.exponent,
    ensures
        signed_scaled(d, lower) == signed_scaled(d, m) * pow10((m - lower) as nat),
{
    lemma_pow10_adds((d.exponent - m) as nat, (m - lower) as nat);
    let a = pow10((d.exponent - m) as nat) as int;
    let b = pow10((m - lower) as nat) as int;
    let n = d.mantissa as int;
    assert(pow10((d.exponent - lower) as nat) == a * b);
    assert(n * (a * b) == (n * a) * b) by (nonlinear_arith);
    assert((-(n * a)) * b == -((n * a) * b)) by (nonlinear_arith);
}

/// Two decimals compare alike whatever common exponent they are written
/// with.
pub proof fn lemma_decimal_order_at(a: DecimalView, b: DecimalView, lower: int)
    requires
        lower <= a.exponent,
        lower <= b.exponent,
    ensures
        decimal_order(a, b) == sign_of(signed_scaled(a, lower) - signed_scaled(b, lower)),
{
    let m = min_exponent(a, b);
    lemma_scaled_further(a, m, lower);
    lemma_scaled_further(b, m, lower);
    lemma_pow10_positive((m - lower) as nat);
    lemma_sign_scales(signed_scaled(a, m), signed_scaled(b, m), pow10((m - lower) as nat) as int);
}

/// A decimal below one that is at most a third is below the third.
pub proof fn lemma_decimal_order_transitive(a: DecimalView, b: DecimalView, c: DecimalView)
    requires
        decimal_order(a, b) < 0,
        decimal_order(b, c) <= 0,
    ensures
        decimal_order(a, c) < 0,
{
    let ab = min_exponent(a, b);
    let lower = if ab <= c.exponent {
        ab
    } else {
        c.exponent
    };
    lemma_decimal_order_at(a, b, lower);
    lemma_decimal_order_at(b, c, lower);
    lemma_decimal_order_at(a, c, lower);
}

/// A hundred times two decimals compare as the decimals do.
pub proof fn lemma_times_hundred_keeps_order(a: DecimalView, b: DecimalView)
    ensures
        decimal_order(
            DecimalView { exponent: a.exponent + 2, ..a },
            DecimalView { exponent: b.exponent + 2, ..b },
        ) == decimal_order(a, b),
{
}

/// A number that is below a hundred times a numeral is below a hundred
/// times any numeral that is not smaller.
pub proof fn lemma_below_hundredfold(k: NumeralView, x: NumeralView, y: NumeralView)
    requires
        k is Finite,
        numeral_order(k, times_hundred(x)) == Some(-1int),
        numeral_order(x, y) is Some,
        numeral_order(x, y)->0 <= 0,
    ensures
        numeral_order(k, times_hundred(y)) == Some(-1int),
{
    match (x, y) {
        (NumeralView::Finite(a), NumeralView::Finite(b)) => {
            lemma_times_hundred_keeps_order(a, b);
            lemma_decimal_order_transitive(
                k->Finite_0,
                DecimalView { exponent: a.exponent + 2, ..a },
                DecimalView { exponent: b.exponent + 2, ..b },
            );
        },
        _ => {},
    }
}

} // verus!
