//! Exact decimal numbers, computed on by `rust_decimal`.
use std::cmp::Ordering;
use vstd::prelude::*;

verus! {

/// Largest number of digits after the decimal point.
pub const MAX_SCALE: u32 = 28;

/// Every magnitude stays below this bound (2^96).
pub const MAGNITUDE_BOUND: u128 = 0x1_0000_0000_0000_0000_0000_0000u128;

/// An exact decimal number `(-1)^negative * magnitude / 10^scale`.
#[derive(Clone, Copy, Debug)]
pub struct Decimal {
    pub(crate) negative: bool,
    pub(crate) magnitude: u128,
    pub(crate) scale: u32,
}

/// `10^n`.
pub open spec fn pow10(n: nat) -> int
    decreases n,
{
    if n == 0 {
        1
    } else {
        10 * pow10((n - 1) as nat)
    }
}

impl Decimal {
    #[verifier::type_invariant]
    spec fn bounded(self) -> bool {
        self.magnitude < MAGNITUDE_BOUND && self.scale <= MAX_SCALE
    }

    /// The sign bit.
    pub open(crate) spec fn is_negative(self) -> bool {
        self.negative
    }

    /// The digits as an unsigned integer.
    pub open(crate) spec fn magnitude(self) -> nat {
        self.magnitude as nat
    }

    /// How many of the digits stand after the decimal point.
    pub open(crate) spec fn scale(self) -> nat {
        self.scale as nat
    }

    /// The signed integer `value * 10^scale`.
    pub open spec fn units(self) -> int {
        if self.is_negative() {
            -(self.magnitude() as int)
        } else {
            self.magnitude() as int
        }
    }

    pub open spec fn is_zero_spec(self) -> bool {
        self.magnitude() == 0
    }

    /// `rust_decimal::Decimal::new`: `num / 10^scale`.
    pub fn new(num: i64, scale: u32) -> (r: Decimal)
        requires
            scale <= MAX_SCALE,
        ensures
            r.is_negative() == (num < 0),
            r.magnitude() == (if num < 0 { -num } else { num as int }),
            r.scale() == scale,
    {
        let negative = num < 0;
        let magnitude: u128 = if negative {
            (-(num as i128)) as u128
        } else {
            num as u128
        };
        Decimal { negative, magnitude, scale }
    }

    /// Zero, with scale 0.
    pub closed spec fn zero_spec() -> Decimal {
        Decimal { negative: false, magnitude: 0, scale: 0 }
    }

    /// Whether the value is zero, whatever the sign bit and scale.
    pub fn is_zero(&self) -> (r: bool)
        ensures
            r == self.is_zero_spec(),
    {
        self.magnitude == 0
    }
}

/// How two decimals compare by value: `a.units() / 10^a.scale()` against
/// `b.units() / 10^b.scale()`, cross-multiplied so that only integers remain.
pub open spec fn value_cmp(a: Decimal, b: Decimal) -> Ordering {
    let l = a.units() * pow10(b.scale());
    let r = b.units() * pow10(a.scale());
    if l < r {
        Ordering::Less
    } else if l == r {
        Ordering::Equal
    } else {
        Ordering::Greater
    }
}

/// The character of the digit `d < 10`.
pub open spec fn digit_char(d: nat) -> char {
    ((d + 48) as u8) as char
}

/// The decimal digits of `n`, most significant first; none for zero.
pub open spec fn digits_of(n: nat) -> Seq<char>
    decreases n,
{
    if n == 0 {
        Seq::empty()
    } else {
        digits_of(n / 10).push(digit_char(n % 10))
    }
}

/// `s` with zeros put in front until it is at least `width` long.
pub open spec fn pad_zeros(s: Seq<char>, width: nat) -> Seq<char> {
    if s.len() >= width {
        s
    } else {
        Seq::new((width - s.len()) as nat, |i: int| '0') + s
    }
}

/// The text of a decimal: a `-` for a set sign bit, then the digits of the
/// magnitude with at least one digit before the point and exactly `scale`
/// digits after it; no point when the scale is zero.
pub open spec fn decimal_text(d: Decimal) -> Seq<char> {
    let p = pad_zeros(digits_of(d.magnitude()), d.scale() + 1);
    let whole = p.subrange(0, p.len() - d.scale());
    let fraction = p.subrange(p.len() - d.scale(), p.len() as int);
    let sign = if d.is_negative() {
        seq!['-']
    } else {
        Seq::empty()
    };
    if d.scale() == 0 {
        sign + whole
    } else {
        sign + whole + seq!['.'] + fraction
    }
}

pub open spec fn is_digit(c: char) -> bool {
    '0' <= c <= '9'
}

pub open spec fn all_digits(s: Seq<char>) -> bool {
    forall|i: int| 0 <= i < s.len() ==> is_digit(#[trigger] s[i])
}

/// The value of a digit character.
pub open spec fn digit_value(c: char) -> nat {
    ((c as u32) - 48) as nat
}

/// The number that a run of digits writes, most significant first.
pub open spec fn digits_value(s: Seq<char>) -> nat
    decreases s.len(),
{
    if s.len() == 0 {
        0
    } else {
        digits_value(s.drop_last()) * 10 + digit_value(s.last())
    }
}

pub open spec fn has_sign(s: Seq<char>) -> bool {
    s.len() > 0 && (s[0] == '+' || s[0] == '-')
}

/// The literal without its leading sign, if it has one.
pub open spec fn unsigned_part(s: Seq<char>) -> Seq<char> {
    if has_sign(s) {
        s.skip(1)
    } else {
        s
    }
}

/// The index of the first `.` in `s`, or its length when it holds none.
pub open spec fn point_index(s: Seq<char>) -> nat
    decreases s.len(),
{
    if s.len() == 0 || s[0] == '.' {
        0
    } else {
        1 + point_index(s.skip(1))
    }
}

/// What stands before the point, sign left out.
pub open spec fn whole_part(s: Seq<char>) -> Seq<char> {
    let u = unsigned_part(s);
    u.take(point_index(u) as int)
}

/// The digits after the point; none when there is no point.
pub open spec fn fraction_part(s: Seq<char>) -> Seq<char> {
    let u = unsigned_part(s);
    let k = point_index(u);
    if k < u.len() {
        u.skip(k + 1 as int)
    } else {
        Seq::empty()
    }
}

/// Whether the literal reads `-` (as opposed to `+` or nothing) in front.
pub open spec fn is_minus(s: Seq<char>) -> bool {
    s.len() > 0 && s[0] == '-'
}

/// An ungrouped numeral: an optional sign, then digits, or digits, a point
/// and digits, or a point and digits.
pub open spec fn plain_numeral(s: Seq<char>) -> bool {
    let u = unsigned_part(s);
    let k = point_index(u);
    &&& all_digits(u.take(k as int))
    &&& if k == u.len() {
        k > 0
    } else {
        u.len() > k + 1 && all_digits(u.skip(k + 1 as int))
    }
}

/// The integer that all digits of a numeral write, point left out.
pub open spec fn numeral_units(s: Seq<char>) -> nat {
    digits_value(whole_part(s) + fraction_part(s))
}

/// A numeral that a decimal holds without rounding: at most 28 digits after
/// the point and digits that stay below 2^96.
pub open spec fn exact_numeral(s: Seq<char>) -> bool {
    &&& plain_numeral(s)
    &&& fraction_part(s).len() <= MAX_SCALE
    &&& numeral_units(s) < MAGNITUDE_BOUND
}

/// The decimal that an exact numeral writes; zero never carries the sign.
pub open(crate) spec fn numeral_value(s: Seq<char>) -> Decimal {
    Decimal {
        negative: is_minus(s) && numeral_units(s) != 0,
        magnitude: numeral_units(s) as u128,
        scale: fraction_part(s).len() as u32,
    }
}

/// `s` without the zeros it starts with.
pub open spec fn without_leading_zeros(s: Seq<char>) -> Seq<char>
    decreases s.len(),
{
    if s.len() > 0 && s[0] == '0' {
        without_leading_zeros(s.skip(1))
    } else {
        s
    }
}

/// The canonical text of an ungrouped numeral: a `-` only for a value
/// other than zero, no `+`; the whole part without leading zeros, or `0`
/// when none is left; then the fraction digits as written, after a point.
pub open spec fn canonical_numeral(t: Seq<char>) -> Seq<char> {
    let w = without_leading_zeros(whole_part(t));
    let f = fraction_part(t);
    let sign = if is_minus(t) && numeral_units(t) != 0 {
        seq!['-']
    } else {
        Seq::empty()
    };
    let whole = if w.len() == 0 {
        seq!['0']
    } else {
        w
    };
    if f.len() == 0 {
        sign + whole
    } else {
        sign + whole + seq!['.'] + f
    }
}

pub open spec fn all_zeros(s: Seq<char>) -> bool {
    forall|i: int| 0 <= i < s.len() ==> s[i] == '0'
}

proof fn lemma_digit_roundtrip(c: char)
    requires
        is_digit(c),
    ensures
        digit_value(c) < 10,
        digit_char(digit_value(c)) == c,
{
    assert(c == '0' || c == '1' || c == '2' || c == '3' || c == '4' || c == '5' || c == '6' || c
        == '7' || c == '8' || c == '9');
}

proof fn lemma_value_zero(d: Seq<char>)
    requires
        all_digits(d),
    ensures
        (digits_value(d) == 0) <==> all_zeros(d),
    decreases d.len(),
{
    if d.len() > 0 {
        let p = d.drop_last();
        assert(all_digits(p));
        lemma_value_zero(p);
        lemma_digit_roundtrip(d.last());
        if all_zeros(d) {
            assert(all_zeros(p));
            assert(d.last() == '0');
        }
        if digits_value(d) == 0 {
            assert(digit_value(d.last()) == 0);
            assert(d.last() == '0');
            assert forall|i: int| 0 <= i < d.len() implies d[i] == '0' by {
                if i < d.len() - 1 {
                    assert(d[i] == p[i]);
                }
            }
        }
    }
}

proof fn lemma_zeros_split(x: Seq<char>, y: Seq<char>)
    ensures
        without_leading_zeros(x + y) == if all_zeros(x) {
            without_leading_zeros(y)
        } else {
            without_leading_zeros(x) + y
        },
    decreases x.len(),
{
    if x.len() == 0 {
        assert(x + y =~= y);
    } else if x[0] == '0' {
        assert((x + y).skip(1) =~= x.skip(1) + y);
        lemma_zeros_split(x.skip(1), y);
        if all_zeros(x) {
            assert(all_zeros(x.skip(1)));
        } else {
            let i = choose|i: int| 0 <= i < x.len() && x[i] != '0';
            assert(x.skip(1)[i - 1] == x[i]);
        }
    } else {
        assert((x + y)[0] == x[0]);
    }
}

proof fn lemma_only_zeros(x: Seq<char>)
    ensures
        all_zeros(x) <==> without_leading_zeros(x).len() == 0,
    decreases x.len(),
{
    if x.len() > 0 && x[0] == '0' {
        lemma_only_zeros(x.skip(1));
        if all_zeros(x) {
            assert(all_zeros(x.skip(1)));
        }
        if all_zeros(x.skip(1)) {
            assert forall|i: int| 0 <= i < x.len() implies x[i] == '0' by {
                if i > 0 {
                    assert(x[i] == x.skip(1)[i - 1]);
                }
            }
        }
    }
}

proof fn lemma_zeros_pad(f: Seq<char>)
    ensures
        f == Seq::new((f.len() - without_leading_zeros(f).len()) as nat, |i: int| '0')
            + without_leading_zeros(f),
        without_leading_zeros(f).len() <= f.len(),
    decreases f.len(),
{
    if f.len() > 0 && f[0] == '0' {
        lemma_zeros_pad(f.skip(1));
        let z = without_leading_zeros(f.skip(1));
        assert(f =~= Seq::new((f.len() - z.len()) as nat, |i: int| '0') + z) by {
            assert(f.skip(1) =~= Seq::new((f.len() - 1 - z.len()) as nat, |i: int| '0') + z);
            assert forall|i: int| 0 <= i < f.len() implies f[i] == (Seq::new(
                (f.len() - z.len()) as nat,
                |i: int| '0',
            ) + z)[i] by {
                if i > 0 {
                    assert(f[i] == f.skip(1)[i - 1]);
                }
            }
        }
    } else {
        assert(f =~= Seq::new(0, |i: int| '0') + f);
    }
}

proof fn lemma_digits_of_value(d: Seq<char>)
    requires
        all_digits(d),
    ensures
        digits_of(digits_value(d)) == without_leading_zeros(d),
    decreases d.len(),
{
    if d.len() == 0 {
        return;
    }
    let p = d.drop_last();
    let c = d.last();
    assert(all_digits(p));
    lemma_digits_of_value(p);
    lemma_digit_roundtrip(c);
    lemma_value_zero(d);
    lemma_value_zero(p);
    assert(d =~= p + seq![c]);
    lemma_zeros_split(p, seq![c]);
    let v = digits_value(d);
    let q = digits_value(p);
    let r = digit_value(c);
    if v == 0 {
        assert(all_zeros(d));
        assert(all_zeros(p));
        assert(c == '0');
        assert(seq![c][0] == '0');
        assert(seq![c].skip(1) =~= Seq::<char>::empty());
        assert(without_leading_zeros(seq![c]) == without_leading_zeros(seq![c].skip(1)));
    } else {
        assert(v == q * 10 + r);
        assert(v / 10 == q && v % 10 == r) by (nonlinear_arith)
            requires
                v == q * 10 + r,
                r < 10,
        ;
        assert(digits_of(v) == digits_of(v / 10).push(digit_char(v % 10)));
        if all_zeros(p) {
            assert(q == 0);
            assert(c != '0');
            assert(digits_of(0) =~= Seq::<char>::empty());
            assert(seq![c][0] == c);
            assert(without_leading_zeros(seq![c]) == seq![c]);
            assert(Seq::<char>::empty().push(c) =~= seq![c]);
        } else {
            assert(without_leading_zeros(p) + seq![c] =~= without_leading_zeros(p).push(c));
        }
    }
}

/// The text of the decimal that an exact numeral writes is its canonical
/// text: the point where the fraction starts and the digits as written,
/// leading zeros of the whole part dropped.
pub proof fn lemma_numeral_text(t: Seq<char>)
    requires
        exact_numeral(t),
    ensures
        decimal_text(numeral_value(t)) == canonical_numeral(t),
{
    let u = unsigned_part(t);
    let k = point_index(u);
    let w = whole_part(t);
    let f = fraction_part(t);
    let d = numeral_value(t);
    assert(all_digits(w));
    assert(all_digits(f));
    assert(all_digits(w + f)) by {
        assert forall|i: int| 0 <= i < (w + f).len() implies is_digit(#[trigger] (w + f)[i]) by {
            if i < w.len() {
                assert((w + f)[i] == w[i]);
            } else {
                assert((w + f)[i] == f[i - w.len()]);
            }
        }
    }
    lemma_digits_of_value(w + f);
    lemma_zeros_split(w, f);
    let digits = digits_of(d.magnitude());
    assert(d.magnitude() == numeral_units(t));
    assert(d.scale() == f.len());
    assert(digits == without_leading_zeros(w + f));
    let p = pad_zeros(digits, d.scale() + 1);
    let ww = without_leading_zeros(w);
    lemma_only_zeros(w);
    if all_zeros(w) {
        lemma_zeros_pad(f);
        assert(digits == without_leading_zeros(f));
        assert(p =~= seq!['0'] + f);
        assert(p.subrange(0, p.len() - d.scale()) =~= seq!['0']);
        assert(p.subrange(p.len() - d.scale(), p.len() as int) =~= f);
    } else {
        assert(digits == ww + f);
        assert(p == ww + f);
        assert(p.subrange(0, p.len() - d.scale()) =~= ww);
        assert(p.subrange(p.len() - d.scale(), p.len() as int) =~= f);
    }
    if f.len() == 0 {
        assert(p.subrange(0, p.len() - d.scale()) =~= p);
    }
}

/// What `rust_decimal` parses from a string.
pub uninterp spec fn decimal_parsed(s: Seq<char>) -> Option<Decimal>;

/// What `rust_decimal`'s `checked_add` gives.
pub uninterp spec fn decimal_sum(a: Decimal, b: Decimal) -> Option<Decimal>;

/// What `rust_decimal`'s `checked_sub` gives.
pub uninterp spec fn decimal_difference(a: Decimal, b: Decimal) -> Option<Decimal>;

/// What `rust_decimal`'s `checked_mul` gives.
pub uninterp spec fn decimal_product(a: Decimal, b: Decimal) -> Option<Decimal>;

/// What `rust_decimal`'s `checked_div` gives.
pub uninterp spec fn decimal_quotient(a: Decimal, b: Decimal) -> Option<Decimal>;

/// Relies on `rust_decimal::Decimal`'s `FromStr`: a numeral with at most 28
/// fraction digits and digits below 2^96 parses exactly, and a parsed zero
/// never carries the sign (`from_parts`). The result keeps a 96-bit magnitude
/// and a scale of at most 28.
#[verifier::external_body]
pub(crate) fn parse_decimal(s: &str) -> (r: Option<Decimal>)
    ensures
        r == decimal_parsed(s@),
        exact_numeral(s@) ==> r == Some(numeral_value(s@)),
{
    match s.parse::<rust_decimal::Decimal>() {
        Ok(d) => Some(
            Decimal { negative: d.is_sign_negative(), magnitude: d.mantissa().unsigned_abs(), scale: d.scale() },
        ),
        Err(_) => None,
    }
}

/// Relies on `Display` of `rust_decimal::Decimal` (`to_str_internal` with no
/// precision, then `pad_integral` with the sign bit).
#[verifier::external_body]
pub(crate) fn format_decimal(d: Decimal) -> (r: String)
    ensures
        r@ == decimal_text(d),
{
    let mut x = rust_decimal::Decimal::from_i128_with_scale(d.magnitude as i128, d.scale);
    x.set_sign_negative(d.negative);
    x.to_string()
}

/// Relies on `Ord` of `rust_decimal::Decimal` (`cmp_impl`), which compares
/// exact values.
#[verifier::external_body]
pub(crate) fn compare_decimals(a: Decimal, b: Decimal) -> (r: Ordering)
    ensures
        r == value_cmp(a, b),
{
    let mut x = rust_decimal::Decimal::from_i128_with_scale(a.magnitude as i128, a.scale);
    x.set_sign_negative(a.negative);
    let mut y = rust_decimal::Decimal::from_i128_with_scale(b.magnitude as i128, b.scale);
    y.set_sign_negative(b.negative);
    x.cmp(&y)
}

/// Relies on `rust_decimal::Decimal::checked_add`: `None` on overflow.
#[verifier::external_body]
pub(crate) fn checked_sum(a: Decimal, b: Decimal) -> (r: Option<Decimal>)
    ensures
        r == decimal_sum(a, b),
{
    let mut x = rust_decimal::Decimal::from_i128_with_scale(a.magnitude as i128, a.scale);
    x.set_sign_negative(a.negative);
    let mut y = rust_decimal::Decimal::from_i128_with_scale(b.magnitude as i128, b.scale);
    y.set_sign_negative(b.negative);
    match x.checked_add(y) {
        Some(z) => Some(Decimal { negative: z.is_sign_negative(), magnitude: z.mantissa().unsigned_abs(), scale: z.scale() }),
        None => None,
    }
}

/// Relies on `rust_decimal::Decimal::checked_sub`: `None` on overflow.
#[verifier::external_body]
pub(crate) fn checked_difference(a: Decimal, b: Decimal) -> (r: Option<Decimal>)
    ensures
        r == decimal_difference(a, b),
{
    let mut x = rust_decimal::Decimal::from_i128_with_scale(a.magnitude as i128, a.scale);
    x.set_sign_negative(a.negative);
    let mut y = rust_decimal::Decimal::from_i128_with_scale(b.magnitude as i128, b.scale);
    y.set_sign_negative(b.negative);
    match x.checked_sub(y) {
        Some(z) => Some(Decimal { negative: z.is_sign_negative(), magnitude: z.mantissa().unsigned_abs(), scale: z.scale() }),
        None => None,
    }
}

/// Relies on `rust_decimal::Decimal::checked_mul`: `None` on overflow.
#[verifier::external_body]
pub(crate) fn checked_product(a: Decimal, b: Decimal) -> (r: Option<Decimal>)
    ensures
        r == decimal_product(a, b),
{
    let mut x = rust_decimal::Decimal::from_i128_with_scale(a.magnitude as i128, a.scale);
    x.set_sign_negative(a.negative);
    let mut y = rust_decimal::Decimal::from_i128_with_scale(b.magnitude as i128, b.scale);
    y.set_sign_negative(b.negative);
    match x.checked_mul(y) {
        Some(z) => Some(Decimal { negative: z.is_sign_negative(), magnitude: z.mantissa().unsigned_abs(), scale: z.scale() }),
        None => None,
    }
}

/// Relies on `rust_decimal::Decimal::checked_div`: `None` on a zero divisor
/// or on overflow.
#[verifier::external_body]
pub(crate) fn checked_quotient(a: Decimal, b: Decimal) -> (r: Option<Decimal>)
    ensures
        r == decimal_quotient(a, b),
{
    let mut x = rust_decimal::Decimal::from_i128_with_scale(a.magnitude as i128, a.scale);
    x.set_sign_negative(a.negative);
    let mut y = rust_decimal::Decimal::from_i128_with_scale(b.magnitude as i128, b.scale);
    y.set_sign_negative(b.negative);
    match x.checked_div(y) {
        Some(z) => Some(Decimal { negative: z.is_sign_negative(), magnitude: z.mantissa().unsigned_abs(), scale: z.scale() }),
        None => None,
    }
}

impl PartialEq for Decimal {
    /// Equality of values: `1.0 == 1.00` and `-0 == 0`.
    fn eq(&self, other: &Decimal) -> (r: bool) {
        match compare_decimals(*self, *other) {
            Ordering::Equal => true,
            _ => false,
        }
    }
}

impl vstd::std_specs::cmp::PartialEqSpecImpl for Decimal {
    open spec fn obeys_eq_spec() -> bool {
        true
    }

    open spec fn eq_spec(&self, other: &Decimal) -> bool {
        value_cmp(*self, *other) == Ordering::Equal
    }
}

impl From<i64> for Decimal {
    /// The integer `n`, with scale 0.
    fn from(n: i64) -> (r: Decimal) {
        Decimal::new(n, 0)
    }
}

impl vstd::std_specs::convert::FromSpecImpl<i64> for Decimal {
    open spec fn obeys_from_spec() -> bool {
        true
    }

    closed spec fn from_spec(n: i64) -> Decimal {
        Decimal { negative: n < 0, magnitude: (if n < 0 { -n } else { n as int }) as u128, scale: 0 }
    }
}

impl From<i32> for Decimal {
    /// The integer `n`, with scale 0.
    fn from(n: i32) -> (r: Decimal) {
        Decimal::new(n as i64, 0)
    }
}

impl vstd::std_specs::convert::FromSpecImpl<i32> for Decimal {
    open spec fn obeys_from_spec() -> bool {
        true
    }

    closed spec fn from_spec(n: i32) -> Decimal {
        Decimal { negative: n < 0, magnitude: (if n < 0 { -n } else { n as int }) as u128, scale: 0 }
    }
}

} // verus!
