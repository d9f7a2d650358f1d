//! Exact decimal numbers: the percentages of a region and the degrees of a
//! rotation. A number is a sign, an integer mantissa and the count of its
//! digits behind the decimal point, at most nine.
//!
//! Numbers are written with digits and a decimal point only. A text with an
//! exponent, such as `9e1`, the words `inf` and `nan`, and a number with
//! more than nine digits behind the point that count are refused: they name
//! values that a number of this kind cannot hold exactly.
use crate::text::{
    all_digits, all_plain, chars_of, decimal_text, digit_char, digit_value, digits_value,
    is_digit, is_plain, lemma_decimal_text, lemma_digit_char, lemma_digits_value_prefix, push_all,
    push_decimal, string_of, subvec,
};
use vstd::arithmetic::div_mod::{
    lemma_fundamental_div_mod, lemma_mod_multiples_basic, lemma_truncate_middle,
};
use vstd::prelude::*;

verus! {

/// Ten to the power `e`.
pub open spec fn pow10(e: nat) -> nat
    decreases e,
{
    if e == 0 {
        1
    } else {
        10 * pow10((e - 1) as nat)
    }
}

/// The first position at or after `i` that holds `c`; the length of `s`
/// where there is none.
pub open spec fn find_from(s: Seq<char>, c: char, i: int) -> int
    decreases s.len() - i,
{
    if 0 <= i < s.len() && s[i] != c {
        find_from(s, c, i + 1)
    } else if i > s.len() {
        s.len() as int
    } else {
        i
    }
}

/// The end of what is left of `s[lo..j]` once trailing zeros are removed.
pub open spec fn zeros_end(s: Seq<char>, lo: int, j: int) -> int
    decreases j,
{
    if 0 <= lo < j <= s.len() && s[j - 1] == '0' {
        zeros_end(s, lo, j - 1)
    } else {
        j
    }
}

/// A text of `k` zeros.
pub open spec fn zeros(k: nat) -> Seq<char> {
    Seq::new(k, |i: int| '0')
}

/// An exact decimal number with at most nine digits behind the point.
///
/// Two numbers are equal exactly when their values are: trailing zeros
/// behind the point are never kept, and zero has no sign.
#[derive(Debug, PartialEq, Eq, Clone, Copy)]
pub struct Decimal {
    negative: bool,
    mantissa: u64,
    scale: u8,
}

/// The number that a text writes: an optional sign, then digits with at
/// most one decimal point among them and at least one digit in all. Zeros
/// at the end of the fraction do not count; what is left must have at most
/// nine digits behind the point and a mantissa that fits 64 bits. `None`
/// for any other text: an exponent, as in `9e1`, is refused, and so are
/// `inf` and `nan` in any case of letters.
pub open spec fn spec_parse_decimal(s: Seq<char>) -> Option<Decimal> {
    let signed = s.len() > 0 && (s[0] == '-' || s[0] == '+');
    let start: int = if signed { 1 } else { 0 };
    let dot = find_from(s, '.', start);
    let whole = s.subrange(start, dot);
    let end = if dot < s.len() { zeros_end(s, dot + 1, s.len() as int) } else { dot };
    let fraction = if dot < s.len() { s.subrange(dot + 1, end) } else { Seq::<char>::empty() };
    let all = whole + fraction;
    if all_digits(s.subrange(start, dot)) && (dot < s.len() ==> all_digits(
        s.subrange(dot + 1, s.len() as int),
    )) && s.len() - start - (if dot < s.len() { 1int } else { 0int }) > 0 && fraction.len() <= 9
        && digits_value(all) <= u64::MAX {
        Some(
            Decimal::spec_new(
                s[0] == '-' && digits_value(all) != 0,
                digits_value(all) as u64,
                fraction.len() as u8,
            ),
        )
    } else {
        None
    }
}

/// Whether every character of `v[a..b]` is a digit.
fn digits_only(v: &Vec<char>, a: usize, b: usize) -> (r: bool)
    requires
        a <= b <= v.len(),
    ensures
        r == all_digits(v@.subrange(a as int, b as int)),
{
    let mut i: usize = a;
    while i < b
        invariant
            a <= i <= b <= v.len(),
            forall|k: int| a <= k < i ==> is_digit(v@[k]),
        decreases b - i,
    {
        let c = v[i];
        if !('0' <= c && c <= '9') {
            assert(v@.subrange(a as int, b as int)[i - a] == c);
            return false;
        }
        i += 1;
    }
    assert forall|k: int| 0 <= k < b - a implies is_digit(
        #[trigger] v@.subrange(a as int, b as int)[k],
    ) by {
        assert(v@.subrange(a as int, b as int)[k] == v@[a + k]);
    }
    true
}

/// The number written by a text of digits, where it fits 64 bits.
fn digits_to_u64(v: &Vec<char>) -> (r: Option<u64>)
    requires
        all_digits(v@),
    ensures
        match r {
            Some(x) => x == digits_value(v@),
            None => digits_value(v@) > u64::MAX,
        },
{
    let mut acc: u64 = 0;
    let mut i: usize = 0;
    while i < v.len()
        invariant
            i <= v.len(),
            all_digits(v@),
            acc == digits_value(v@.take(i as int)),
        decreases v.len() - i,
    {
        let c = v[i];
        assert(is_digit(v@[i as int]));
        let d: u128 = (c as u32 - '0' as u32) as u128;
        proof {
            assert(v@.take(i + 1).drop_last() == v@.take(i as int));
            assert(v@.take(i + 1).last() == c);
            assert(digits_value(v@.take(i + 1)) == acc * 10 + d);
            lemma_digits_value_prefix(v@, i + 1);
        }
        let next: u128 = (acc as u128) * 10 + d;
        if next > 0xffff_ffff_ffff_ffff {
            return None;
        }
        acc = next as u64;
        i += 1;
    }
    assert(v@.take(v.len() as int) == v@);
    Some(acc)
}

impl Decimal {
    /// Whether the number is written with a minus sign.
    pub closed spec fn spec_negative(&self) -> bool {
        self.negative
    }

    /// The digits of the number as an integer, without sign and point.
    pub closed spec fn spec_mantissa(&self) -> u64 {
        self.mantissa
    }

    /// The number of digits behind the decimal point.
    pub closed spec fn spec_scale(&self) -> u8 {
        self.scale
    }

    /// The number of the given sign, mantissa and scale.
    pub closed spec fn spec_new(negative: bool, mantissa: u64, scale: u8) -> Decimal {
        Decimal { negative, mantissa, scale }
    }

    /// No more than nine digits behind the point, none of them a trailing
    /// zero, and no sign on zero.
    #[verifier::type_invariant]
    pub open spec fn wf(&self) -> bool {
        &&& self.spec_scale() <= 9
        &&& (self.spec_scale() > 0 ==> self.spec_mantissa() % 10 != 0)
        &&& (self.spec_mantissa() == 0 ==> !self.spec_negative())
    }

    /// The value of the number, in billionths.
    pub open spec fn billionths(&self) -> int {
        let m = self.spec_mantissa() * pow10((9 - self.spec_scale()) as nat);
        if self.spec_negative() {
            -m
        } else {
            m as int
        }
    }

    /// The digits of the mantissa, with zeros in front where it has no more
    /// digits than stand behind the point.
    pub open spec fn digits(&self) -> Seq<char> {
        let t = decimal_text(self.spec_mantissa() as nat);
        if t.len() > self.spec_scale() {
            t
        } else {
            zeros((self.spec_scale() + 1 - t.len()) as nat) + t
        }
    }

    /// The shortest text of the number: a minus sign where it is negative,
    /// the integer part, and the fraction behind a point where there is one.
    pub open spec fn spec_text(&self) -> Seq<char> {
        let d = self.digits();
        let cut = d.len() - self.spec_scale();
        let sign = if self.spec_negative() { seq!['-'] } else { Seq::<char>::empty() };
        if self.spec_scale() == 0 {
            sign + d
        } else {
            sign + d.take(cut) + seq!['.'] + d.skip(cut)
        }
    }

    /// The whole number `n`.
    pub open spec fn spec_from_u32(n: u32) -> Decimal {
        Decimal::spec_new(false, n as u64, 0)
    }

    /// A number is its sign, its mantissa and its scale, and nothing else.
    pub proof fn lemma_parts(negative: bool, mantissa: u64, scale: u8)
        ensures
            Decimal::spec_new(negative, mantissa, scale).spec_negative() == negative,
            Decimal::spec_new(negative, mantissa, scale).spec_mantissa() == mantissa,
            Decimal::spec_new(negative, mantissa, scale).spec_scale() == scale,
    {
    }

    /// Two numbers of the same sign, mantissa and scale are the same number.
    pub proof fn lemma_same_parts(a: Decimal, b: Decimal)
        requires
            a.spec_negative() == b.spec_negative(),
            a.spec_mantissa() == b.spec_mantissa(),
            a.spec_scale() == b.spec_scale(),
        ensures
            a == b,
    {
    }

    /// The whole number `n`.
    pub fn from_u32(n: u32) -> (r: Decimal)
        ensures
            r == Decimal::spec_from_u32(n),
            r.wf(),
            r.billionths() == n * 1_000_000_000,
    {
        proof {
            lemma_pow10_nine();
        }
        Decimal { negative: false, mantissa: n as u64, scale: 0 }
    }

    /// The number `mantissa / 10^scale`, negated where `negative` is set;
    /// `None` where more than nine digits would stand behind the point once
    /// trailing zeros are dropped: where `scale` is above nine and
    /// `mantissa` is no multiple of ten to the power `scale - 9`.
    pub fn new(negative: bool, mantissa: u64, scale: u8) -> (r: Option<Decimal>)
        ensures
            r is None <==> scale > 9 && (mantissa as int) % (pow10((scale - 9) as nat) as int) != 0,
            r matches Some(d) ==> d.wf() && d.billionths() * pow10(scale as nat) == (if negative {
                -(mantissa * pow10(9))
            } else {
                mantissa * pow10(9)
            }),
    {
        let mut m: u64 = mantissa;
        let mut s: u8 = scale;
        proof {
            assert(pow10(0) == 1);
            assert(m * pow10((scale - s) as nat) == mantissa) by (nonlinear_arith)
                requires
                    pow10((scale - s) as nat) == 1,
                    m == mantissa,
            ;
        }
        while s > 0 && m % 10 == 0
            invariant
                s <= scale,
                m * pow10((scale - s) as nat) == mantissa,
            decreases s,
        {
            proof {
                let e = (scale - s) as nat;
                assert(pow10(e + 1) == 10 * pow10(e));
                assert((m / 10) * (10 * pow10(e)) == m * pow10(e)) by (nonlinear_arith)
                    requires
                        m % 10 == 0,
                ;
            }
            m = m / 10;
            s = s - 1;
        }
        if s > 9 {
            proof {
                lemma_not_a_multiple(m as int, (scale - s) as nat, (s - 9) as nat);
                lemma_pow10_add((scale - s) as nat, (s - 9) as nat);
            }
            None
        } else {
            let d = Decimal { negative: negative && m != 0, mantissa: m, scale: s };
            proof {
                lemma_pow10_add((9 - s) as nat, scale as nat);
                lemma_pow10_add((scale - s) as nat, 9);
                let a = pow10((9 - s) as nat);
                let b = pow10(scale as nat);
                let c = pow10((scale - s) as nat);
                let e = pow10(9);
                assert(a * b == c * e);
                assert((m * a) * b == (m * c) * e) by (nonlinear_arith)
                    requires
                        a * b == c * e,
                ;
                assert((-(m * a)) * b == -((m * c) * e)) by (nonlinear_arith)
                    requires
                        (m * a) * b == (m * c) * e,
                ;
                if scale > 9 {
                    let p = pow10((scale - 9) as nat);
                    let q = pow10((9 - s) as nat);
                    lemma_pow10_add((9 - s) as nat, (scale - 9) as nat);
                    lemma_pow10_positive((scale - 9) as nat);
                    assert(mantissa == (m * q) * p) by (nonlinear_arith)
                        requires
                            mantissa == m * c,
                            c == q * p,
                    ;
                    lemma_mod_multiples_basic(m * q, p as int);
                }
            }
            Some(d)
        }
    }

    /// Whether the number is below zero.
    pub fn is_negative(&self) -> (r: bool)
        ensures
            r == self.spec_negative(),
            r == (self.billionths() < 0),
    {
        proof {
            use_type_invariant(self);
            lemma_pow10_positive((9 - self.scale) as nat);
            assert(self.mantissa > 0 ==> self.mantissa * pow10((9 - self.scale) as nat) > 0)
                by (nonlinear_arith)
                requires
                    pow10((9 - self.scale) as nat) > 0,
            ;
        }
        self.negative
    }

    /// The digits of the number as an integer: its absolute value times ten
    /// to the power [`Decimal::scale`].
    pub fn mantissa(&self) -> (r: u64)
        ensures
            r == self.spec_mantissa(),
            self.spec_scale() <= 9,
            r * pow10((9 - self.spec_scale()) as nat) == if self.billionths() < 0 {
                -self.billionths()
            } else {
                self.billionths()
            },
    {
        proof {
            use_type_invariant(self);
        }
        self.mantissa
    }

    /// The number of digits behind the decimal point: at most nine, and as
    /// few as the value allows.
    pub fn scale(&self) -> (r: u8)
        ensures
            r == self.spec_scale(),
            r <= 9,
            r > 0 ==> self.spec_mantissa() % 10 != 0,
    {
        proof {
            use_type_invariant(self);
        }
        self.scale
    }

    /// The absolute value of the number, in billionths.
    pub fn magnitude(&self) -> (r: u128)
        ensures
            self.wf(),
            r == if self.billionths() < 0 { -self.billionths() } else { self.billionths() },
            r <= 18_446_744_073_709_551_615_000_000_000,
    {
        proof {
            use_type_invariant(self);
        }
        let mut p: u128 = 1;
        let mut e: u8 = 0;
        while e < 9 - self.scale
            invariant
                self.scale <= 9,
                e <= 9 - self.scale,
                p == pow10(e as nat),
                p <= 1_000_000_000,
            decreases 9 - self.scale - e,
        {
            proof {
                lemma_pow10_monotone((e + 1) as nat, 9);
                lemma_pow10_nine();
            }
            p = p * 10;
            e = e + 1;
        }
        assert(self.mantissa * p <= 0xffff_ffff_ffff_ffff * 1_000_000_000) by (nonlinear_arith)
            requires
                self.mantissa <= 0xffff_ffff_ffff_ffff,
                p <= 1_000_000_000,
        ;
        (self.mantissa as u128) * p
    }

    /// The value of the number, in billionths.
    pub fn signed_billionths(&self) -> (r: i128)
        ensures
            self.wf(),
            r == self.billionths(),
            -18_446_744_073_709_551_615_000_000_000 <= r <= 18_446_744_073_709_551_615_000_000_000,
    {
        let m = self.magnitude();
        if self.is_negative() {
            -(m as i128)
        } else {
            m as i128
        }
    }

    /// Reads a decimal number. A text with an exponent, `inf` and `nan` are
    /// refused, as is a number that needs more than nine digits behind the
    /// point.
    pub fn parse(v: &Vec<char>) -> (r: Option<Decimal>)
        ensures
            r == spec_parse_decimal(v@),
            r matches Some(d) ==> d.wf(),
    {
        let n: usize = v.len();
        let signed: bool = n > 0 && (v[0] == '-' || v[0] == '+');
        let start: usize = if signed { 1 } else { 0 };
        let mut dot: usize = start;
        while dot < n && v[dot] != '.'
            invariant
                start <= dot <= n,
                n == v.len(),
                find_from(v@, '.', dot as int) == find_from(v@, '.', start as int),
            decreases n - dot,
        {
            dot += 1;
        }
        if !digits_only(v, start, dot) {
            return None;
        }
        let whole = subvec(v, start, dot);
        let mut all: Vec<char> = whole;
        let mut fraction_len: usize = 0;
        if dot < n {
            if !digits_only(v, dot + 1, n) {
                return None;
            }
            if n - start - 1 == 0 {
                return None;
            }
            let mut end: usize = n;
            while dot + 1 < end && v[end - 1] == '0'
                invariant
                    dot + 1 <= end <= n,
                    n == v.len(),
                    zeros_end(v@, dot + 1, end as int) == zeros_end(v@, dot + 1, n as int),
                decreases end,
            {
                end -= 1;
            }
            let fraction = subvec(v, dot + 1, end);
            fraction_len = fraction.len();
            proof {
                let tail = v@.subrange(dot + 1, n as int);
                assert forall|k: int| 0 <= k < fraction@.len() implies is_digit(
                    #[trigger] fraction@[k],
                ) by {
                    assert(fraction@[k] == tail[k]);
                }
            }
            push_all(&mut all, &fraction);
        } else {
            if n - start == 0 {
                return None;
            }
        }
        if fraction_len > 9 {
            return None;
        }
        match digits_to_u64(&all) {
            None => None,
            Some(m) => {
                proof {
                    if fraction_len > 0 {
                        let f = v@.subrange(dot + 1, dot + 1 + fraction_len);
                        assert(all@.last() == f.last());
                        assert(f.last() != '0');
                        assert(all@.drop_last() == all@.drop_last());
                        assert(is_digit(all@.last()));
                        assert(digits_value(all@) % 10 == digit_value(all@.last()));
                    }
                }
                Some(
                    Decimal {
                        negative: signed && v[0] == '-' && m != 0,
                        mantissa: m,
                        scale: fraction_len as u8,
                    },
                )
            },
        }
    }

    /// Reads a decimal number from a string.
    pub fn from_str(s: &str) -> (r: Option<Decimal>)
        ensures
            r == spec_parse_decimal(s@),
            r matches Some(d) ==> d.wf(),
    {
        Decimal::parse(&chars_of(s))
    }

    /// Appends the text of the number.
    pub fn push_text(&self, out: &mut Vec<char>)
        ensures
            final(out)@ == old(out)@ + self.spec_text(),
    {
        proof {
            use_type_invariant(self);
        }
        let mut digits: Vec<char> = Vec::new();
        let mut t: Vec<char> = Vec::new();
        push_decimal(&mut t, self.mantissa);
        let scale: usize = self.scale as usize;
        let mut pad: usize = 0;
        while t.len() + pad < scale + 1
            invariant
                scale <= 9,
                t.len() + pad <= scale + 1 || pad == 0,
                digits@ == zeros(pad as nat),
            decreases scale + 1 - t.len() - pad,
        {
            digits.push('0');
            pad += 1;
            assert(digits@ == zeros(pad as nat));
        }
        proof {
            lemma_decimal_text(self.mantissa as nat);
            if t.len() > scale {
                assert(pad == 0);
                assert(zeros(0) + t@ == t@);
            }
        }
        push_all(&mut digits, &t);
        assert(digits@ == self.digits());
        let cut: usize = digits.len() - scale;
        if self.negative {
            out.push('-');
        }
        if scale == 0 {
            push_all(out, &digits);
        } else {
            let head = subvec(&digits, 0, cut);
            let tail = subvec(&digits, cut, digits.len());
            push_all(out, &head);
            out.push('.');
            push_all(out, &tail);
        }
    }

    /// The shortest text of the number.
    pub fn to_string(&self) -> (r: String)
        ensures
            r@ == self.spec_text(),
    {
        let mut out: Vec<char> = Vec::new();
        self.push_text(&mut out);
        string_of(&out)
    }
}

/// Ten to the ninth is a billion.
pub proof fn lemma_pow10_nine()
    ensures
        pow10(9) == 1_000_000_000,
{
    reveal_with_fuel(pow10, 10);
}

/// A number that does not end in a zero, followed by `a` zeros, is no
/// multiple of ten to a power above `a`.
proof fn lemma_not_a_multiple(m: int, a: nat, b: nat)
    requires
        0 <= m,
        m % 10 != 0,
        b >= 1,
    ensures
        (m * pow10(a)) % ((pow10(a) * pow10(b)) as int) != 0,
{
    let pa = pow10(a) as int;
    let pb = pow10(b) as int;
    let rest = pow10((b - 1) as nat) as int;
    lemma_pow10_positive(a);
    lemma_pow10_positive(b);
    lemma_pow10_positive((b - 1) as nat);
    assert(pb == 10 * rest);
    lemma_truncate_middle(m, pa, pb);
    assert(m * pa == pa * m) by (nonlinear_arith);
    if m % pb == 0 {
        lemma_fundamental_div_mod(m, pb);
        assert(m == (rest * (m / pb)) * 10) by (nonlinear_arith)
            requires
                m == pb * (m / pb) + 0,
                pb == 10 * rest,
        ;
        lemma_mod_multiples_basic(rest * (m / pb), 10);
    }
    assert(pa * (m % pb) != 0) by (nonlinear_arith)
        requires
            pa > 0,
            m % pb != 0,
    ;
}

/// Powers of ten multiply by adding their exponents.
pub proof fn lemma_pow10_add(a: nat, b: nat)
    ensures
        pow10(a) * pow10(b) == pow10(a + b),
    decreases a,
{
    if a > 0 {
        lemma_pow10_add((a - 1) as nat, b);
        let x = pow10((a - 1) as nat);
        let y = pow10(b);
        assert((a + b - 1) as nat == (a - 1) as nat + b);
        assert(pow10(a + b) == 10 * pow10((a + b - 1) as nat));
        assert(pow10(a) == 10 * x);
        assert(x * y == pow10((a + b - 1) as nat));
        assert((10 * x) * y == 10 * (x * y)) by (nonlinear_arith);
    } else {
        assert(pow10(a) == 1);
        assert(a + b == b);
    }
}

/// Skipping characters other than `c` does not change where `c` is found.
pub proof fn lemma_find_skips(s: Seq<char>, c: char, i: int, j: int)
    requires
        0 <= i <= j <= s.len(),
        forall|k: int| i <= k < j ==> s[k] != c,
    ensures
        find_from(s, c, i) == find_from(s, c, j),
    decreases j - i,
{
    if i < j {
        lemma_find_skips(s, c, i + 1, j);
    }
}

/// Zeros in front of a text of digits do not change the number it writes.
pub proof fn lemma_digits_value_zeros(k: nat, t: Seq<char>)
    ensures
        digits_value(zeros(k) + t) == digits_value(t),
    decreases t.len(), k,
{
    if t.len() == 0 {
        assert(zeros(k) + t == zeros(k));
        if k > 0 {
            assert(zeros(k).drop_last() == zeros((k - 1) as nat));
            assert(zeros((k - 1) as nat) + t == zeros((k - 1) as nat));
            lemma_digits_value_zeros((k - 1) as nat, t);
        }
    } else {
        assert((zeros(k) + t).drop_last() == zeros(k) + t.drop_last());
        lemma_digits_value_zeros(k, t.drop_last());
    }
}

/// The digits of a well-formed number are digits, more of them than stand
/// behind the point; they write its mantissa, and the last is no zero where
/// there is a fraction.
proof fn lemma_digits(d: Decimal)
    requires
        d.wf(),
    ensures
        all_digits(d.digits()),
        d.digits().len() > d.scale,
        digits_value(d.digits()) == d.mantissa,
        d.scale > 0 ==> d.digits().last() != '0',
{
    let m = d.mantissa as nat;
    let t = decimal_text(m);
    let scale = d.scale as int;
    lemma_decimal_text(m);
    lemma_digit_char(m % 10);
    assert(t.last() == digit_char(m % 10)) by {
        if m >= 10 {
            assert(t == decimal_text(m / 10).push(digit_char(m % 10)));
        }
    }
    if t.len() <= scale {
        let k = (scale + 1 - t.len()) as nat;
        lemma_digits_value_zeros(k, t);
        assert((zeros(k) + t).last() == t.last());
        assert forall|i: int| 0 <= i < (zeros(k) + t).len() implies is_digit(
            #[trigger] (zeros(k) + t)[i],
        ) by {
            if i >= k {
                assert((zeros(k) + t)[i] == t[i - k]);
            }
        }
    }
}

/// The text of a whole number reads back as the number.
proof fn lemma_round_trip_whole(d: Decimal)
    requires
        d.wf(),
        d.scale == 0,
    ensures
        spec_parse_decimal(d.spec_text()) == Some(d),
{
    let digits = d.digits();
    let s = d.spec_text();
    lemma_digits(d);
    let start: int = if d.negative { 1 } else { 0 };
    assert(is_digit(digits[0]));
    assert(s[start] == digits[0]);
    assert(s.subrange(start, s.len() as int) == digits);
    assert forall|k: int| start <= k < s.len() implies s[k] != '.' by {
        assert(s[k] == digits[k - start]);
        assert(is_digit(digits[k - start]));
    }
    lemma_find_skips(s, '.', start, s.len() as int);
    assert(find_from(s, '.', s.len() as int) == s.len());
    assert(digits + Seq::<char>::empty() == digits);
}

/// The text of a number with a fraction reads back as the number.
#[verifier::rlimit(50)]
proof fn lemma_round_trip_fraction(d: Decimal)
    requires
        d.wf(),
        d.scale > 0,
    ensures
        spec_parse_decimal(d.spec_text()) == Some(d),
{
    let digits = d.digits();
    let s = d.spec_text();
    let scale = d.scale as int;
    let cut = digits.len() - scale;
    lemma_digits(d);
    let start: int = if d.negative { 1 } else { 0 };
    let dot = start + cut;
    let whole = digits.take(cut);
    let fraction = digits.skip(cut);
    assert(s.len() == start + digits.len() + 1);
    assert(is_digit(digits[0]));
    assert(s[start] == digits[0]);
    assert(s[dot] == '.');
    assert(s.subrange(start, dot) == whole);
    assert(s.subrange(dot + 1, s.len() as int) == fraction);
    assert(find_from(s, '.', start) == dot) by {
        assert forall|k: int| start <= k < dot implies s[k] != '.' by {
            assert(s[k] == digits[k - start]);
            assert(is_digit(digits[k - start]));
        }
        lemma_find_skips(s, '.', start, dot);
    }
    assert(zeros_end(s, dot + 1, s.len() as int) == s.len()) by {
        assert(s[s.len() - 1] == digits.last());
    }
    assert(whole + fraction == digits);
    assert(all_digits(whole)) by {
        assert forall|k: int| 0 <= k < whole.len() implies is_digit(#[trigger] whole[k]) by {
            assert(whole[k] == digits[k]);
        }
    }
    assert(all_digits(fraction)) by {
        assert forall|k: int| 0 <= k < fraction.len() implies is_digit(#[trigger] fraction[k]) by {
            assert(fraction[k] == digits[cut + k]);
        }
    }
}

/// The text of a number is not empty and made of digits, at most one minus
/// sign in front and at most one point: plain characters, none of them a
/// comma or a slash.
pub proof fn lemma_decimal_chars(d: Decimal)
    requires
        d.wf(),
    ensures
        d.spec_text().len() >= 1,
        is_digit(d.spec_text()[0]) || d.spec_text()[0] == '-',
        all_plain(d.spec_text()),
        !d.spec_text().contains(','),
        !d.spec_text().contains('/'),
{
    let digits = d.digits();
    let s = d.spec_text();
    let cut = digits.len() - d.scale;
    let start: int = if d.negative { 1 } else { 0 };
    lemma_digits(d);
    assert(is_digit(digits[0]));
    assert forall|i: int| 0 <= i < s.len() implies is_digit(#[trigger] s[i]) || s[i] == '-'
        || s[i] == '.' by {
        if i >= start {
            if d.scale == 0 {
                assert(s[i] == digits[i - start]);
            } else if i < start + cut {
                assert(s[i] == digits[i - start]);
            } else if i > start + cut {
                assert(s[i] == digits[i - start - 1]);
            }
        }
    }
    assert forall|i: int| 0 <= i < s.len() implies is_plain(#[trigger] s[i]) by {
        assert(is_digit(s[i]) || s[i] == '-' || s[i] == '.');
    }
    assert forall|i: int| 0 <= i < s.len() implies s[i] != ',' && s[i] != '/' by {
        assert(is_digit(s[i]) || s[i] == '-' || s[i] == '.');
    }
    assert(s[0] == if d.negative { '-' } else { digits[0] });
}

/// The text of a number reads back as the number.
pub proof fn lemma_decimal_round_trip(d: Decimal)
    requires
        d.wf(),
    ensures
        spec_parse_decimal(d.spec_text()) == Some(d),
{
    if d.scale == 0 {
        lemma_round_trip_whole(d);
    } else {
        lemma_round_trip_fraction(d);
    }
}

/// What a text reads as is a well-formed number.
pub proof fn lemma_parse_decimal_wf(s: Seq<char>)
    ensures
        spec_parse_decimal(s) matches Some(d) ==> d.wf(),
{
    if let Some(d) = spec_parse_decimal(s) {
        let signed = s.len() > 0 && (s[0] == '-' || s[0] == '+');
        let start: int = if signed { 1 } else { 0 };
        let dot = find_from(s, '.', start);
        lemma_find_bounds(s, '.', start);
        if dot < s.len() {
            let end = zeros_end(s, dot + 1, s.len() as int);
            lemma_zeros_end(s, dot + 1, s.len() as int);
            let fraction = s.subrange(dot + 1, end);
            let all = s.subrange(start, dot) + fraction;
            if fraction.len() > 0 {
                assert(all.last() == fraction.last());
                assert(fraction.last() == s[end - 1]);
                assert(s.subrange(dot + 1, s.len() as int)[end - 1 - (dot + 1)] == s[end - 1]);
                assert(is_digit(s[end - 1]));
                assert(digits_value(all) % 10 == digit_value(all.last()));
            }
        }
    }
}

/// Where a character is found lies between the start and the end.
pub proof fn lemma_find_bounds(s: Seq<char>, c: char, i: int)
    requires
        0 <= i <= s.len(),
    ensures
        i <= find_from(s, c, i) <= s.len(),
        find_from(s, c, i) < s.len() ==> s[find_from(s, c, i)] == c,
        forall|k: int| i <= k < find_from(s, c, i) ==> s[k] != c,
    decreases s.len() - i,
{
    if i < s.len() && s[i] != c {
        lemma_find_bounds(s, c, i + 1);
    }
}

/// What is left once trailing zeros are removed does not end in a zero.
pub proof fn lemma_zeros_end(s: Seq<char>, lo: int, j: int)
    requires
        0 <= lo <= j <= s.len(),
    ensures
        lo <= zeros_end(s, lo, j) <= j,
        zeros_end(s, lo, j) > lo ==> s[zeros_end(s, lo, j) - 1] != '0',
    decreases j,
{
    if lo < j && s[j - 1] == '0' {
        lemma_zeros_end(s, lo, j - 1);
    }
}

/// Every power of ten is positive.
pub proof fn lemma_pow10_positive(e: nat)
    ensures
        pow10(e) > 0,
    decreases e,
{
    if e > 0 {
        lemma_pow10_positive((e - 1) as nat);
    }
}

/// A larger exponent gives a power of ten that is no smaller.
pub proof fn lemma_pow10_monotone(a: nat, b: nat)
    requires
        a <= b,
    ensures
        pow10(a) <= pow10(b),
    decreases b,
{
    if a < b {
        lemma_pow10_monotone(a, (b - 1) as nat);
        lemma_pow10_positive((b - 1) as nat);
    }
}

} // verus!
