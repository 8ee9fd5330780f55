//! Fixed-point decimal numbers: an integer and the number of its digits that
//! stand to the right of the decimal point.

use vstd::prelude::*;
use vstd::arithmetic::div_mod::lemma_div_denominator;
use vstd::arithmetic::div_mod::lemma_div_is_ordered_by_denominator;
use vstd::arithmetic::div_mod::lemma_div_pos_is_pos;
use vstd::std_specs::cmp::PartialOrdSpecImpl;
use vstd::std_specs::ops::AddSpecImpl;
use vstd::std_specs::ops::DivSpecImpl;
use vstd::std_specs::ops::MulSpecImpl;
use vstd::std_specs::ops::RemSpecImpl;
use vstd::std_specs::ops::SubSpecImpl;
use vstd::string::StringExecFns;
use std::cmp::Ordering;
use std::ops::Add;
use std::ops::Div;
use std::ops::Mul;
use std::ops::Rem;
use std::ops::Sub;

verus! {

/// `String::push`: the character is added at the end of the string.
pub assume_specification[ String::push ](s: &mut String, ch: char)
    ensures
        final(s)@ == old(s)@.push(ch),
;

/// Ten to the power `n`.
pub open spec fn pow10(n: nat) -> nat
    decreases n,
{
    if n == 0 {
        1
    } else {
        10 * pow10((n - 1) as nat)
    }
}

/// Whether `n` is the value of an `i64`.
pub open spec fn fits_i64(n: int) -> bool {
    i64::MIN <= n <= i64::MAX
}

/// The quotient of `n` by `d`, rounded toward zero. (In ghost code `/`
/// and `%` are the Euclidean quotient and remainder: the remainder is never
/// negative.)
pub open spec fn truncated_quotient(n: int, d: int) -> int {
    if n >= 0 {
        n / d
    } else {
        -((-n) / d)
    }
}

/// What is left of `n` when the multiples of `d` are taken out: it has the
/// sign of `n`, and is `n - d * truncated_quotient(n, d)`.
pub open spec fn truncated_remainder(n: int, d: int) -> int {
    if n >= 0 {
        n % d
    } else {
        -((-n) % d)
    }
}

/// Whether `c` is one of the digits `0` to `9`.
pub open spec fn is_digit(c: char) -> bool {
    '0' <= c <= '9'
}

/// The value of the digit `c`.
pub open spec fn digit_value(c: char) -> nat {
    (c as int - '0' as int) as nat
}

/// The digit that stands for `d`, which is less than ten.
pub open spec fn digit_char(d: nat) -> char {
    (d + '0' as nat) as char
}

/// The digits of `n` in base ten, without leading zeros; one `0` for zero.
pub open spec fn digits(n: nat) -> Seq<char>
    decreases n,
{
    if n < 10 {
        seq![digit_char(n)]
    } else {
        digits(n / 10).push(digit_char(n % 10))
    }
}

/// `n` zeros.
pub open spec fn zeros(n: nat) -> Seq<char> {
    Seq::new(n, |i: int| '0')
}

/// Why a text is not a decimal number.
#[derive(Debug, Clone, Copy, PartialEq, Eq, Structural)]
pub enum DecimalErrorKind {
    /// The text is empty.
    Empty,
    /// The text holds this character at this index, where a decimal number
    /// cannot have it.
    InvalidChar(char, u32),
}

/// The number `unscaled / 10^scale`.
#[derive(Debug, Clone, Copy, PartialEq, Eq, Hash, Structural)]
pub struct Decimal {
    pub unscaled: i64,
    pub scale: u32,
}

/// What reading a text from its start to some point has found.
pub ghost struct Scan {
    /// The number that the digits make.
    pub unscaled: nat,
    /// How many digits came after a decimal point.
    pub scale: nat,
    /// Whether the text starts with a minus sign.
    pub negative: bool,
    /// Whether a decimal point has been met.
    pub seen_decimal: bool,
}

/// What reading `s` from its start finds, or the first character that a
/// decimal number cannot have, with its index.
///
/// A minus sign may stand at the start only. A decimal point may stand
/// anywhere, more than once; digits count for the scale once one has been
/// met.
pub open spec fn scan(s: Seq<char>) -> Result<Scan, DecimalErrorKind>
    decreases s.len(),
{
    if s.len() == 0 {
        Ok(Scan { unscaled: 0, scale: 0, negative: false, seen_decimal: false })
    } else {
        match scan(s.drop_last()) {
            Err(e) => Err(e),
            Ok(st) => {
                let c = s.last();
                let index = s.len() - 1;
                if c == '-' && index == 0 {
                    Ok(Scan { negative: true, ..st })
                } else if c == '.' {
                    Ok(Scan { seen_decimal: true, ..st })
                } else if is_digit(c) {
                    Ok(
                        Scan {
                            unscaled: st.unscaled * 10 + digit_value(c),
                            scale: if st.seen_decimal {
                                st.scale + 1
                            } else {
                                st.scale
                            },
                            ..st
                        },
                    )
                } else {
                    Err(DecimalErrorKind::InvalidChar(c, index as u32))
                }
            },
        }
    }
}

/// The decimal number that the text `s` stands for, or why it stands for
/// none.
pub open spec fn parsed(s: Seq<char>) -> Result<Decimal, DecimalErrorKind> {
    if s.len() == 0 {
        Err(DecimalErrorKind::Empty)
    } else {
        match scan(s) {
            Err(e) => Err(e),
            Ok(st) => Ok(
                Decimal {
                    unscaled: (if st.negative {
                        -st.unscaled
                    } else {
                        st.unscaled as int
                    }) as i64,
                    scale: st.scale as u32,
                },
            ),
        }
    }
}

/// Whether the text `s` can be read without leaving the range of the
/// machine's integers: it has at most `u32::MAX` characters, and the digits
/// read up to any point make a number that is at most `i64::MAX`.
pub open spec fn readable(s: Seq<char>) -> bool {
    &&& s.len() <= u32::MAX
    &&& forall|n: int|
        0 <= n <= s.len() ==> ((#[trigger] scan(s.take(n))) matches Ok(st) ==> st.unscaled
            <= i64::MAX)
}

/// The larger of the scales of `a` and `b`.
pub open spec fn common_scale(a: Decimal, b: Decimal) -> nat {
    if a.scale >= b.scale {
        a.scale as nat
    } else {
        b.scale as nat
    }
}

/// How `a` stands to `b`.
pub open spec fn order_of(a: int, b: int) -> Ordering {
    if a < b {
        Ordering::Less
    } else if a == b {
        Ordering::Equal
    } else {
        Ordering::Greater
    }
}

/// The powers of ten are positive and grow with the exponent.
pub proof fn lemma_pow10_grows(i: nat, j: nat)
    requires
        i <= j,
    ensures
        1 <= pow10(i) <= pow10(j),
    decreases j,
{
    if i < j {
        lemma_pow10_grows(i, (j - 1) as nat);
    } else if j > 0 {
        lemma_pow10_grows((i - 1) as nat, (j - 1) as nat);
    }
}

/// A number multiplied by a power of ten lies between zero and the same
/// number multiplied by a higher power of ten.
pub proof fn lemma_scaled_between(n: int, i: nat, j: nat)
    requires
        i <= j,
    ensures
        n >= 0 ==> 0 <= n * pow10(i) <= n * pow10(j),
        n <= 0 ==> n * pow10(j) <= n * pow10(i) <= 0,
        n > 0 ==> n * pow10(i) > 0,
        n < 0 ==> n * pow10(i) < 0,
{
    lemma_pow10_grows(i, j);
    let a = pow10(i) as int;
    let b = pow10(j) as int;
    assert(n >= 0 ==> 0 <= n * a <= n * b) by (nonlinear_arith)
        requires
            1 <= a <= b,
    ;
    assert(n <= 0 ==> n * b <= n * a <= 0) by (nonlinear_arith)
        requires
            1 <= a <= b,
    ;
    assert(n > 0 ==> n * a > 0) by (nonlinear_arith)
        requires
            1 <= a,
    ;
    assert(n < 0 ==> n * a < 0) by (nonlinear_arith)
        requires
            1 <= a,
    ;
}

/// Dividing by a power of ten and then by ten, rounding toward zero each
/// time, is dividing by the next power of ten.
pub proof fn lemma_truncated_quotient_step(n: int, k: nat)
    ensures
        truncated_quotient(truncated_quotient(n, pow10(k) as int), 10) == truncated_quotient(
            n,
            pow10(k + 1) as int,
        ),
{
    lemma_pow10_grows(k, k + 1);
    let p = pow10(k) as int;
    assert(pow10(k + 1) == 10 * pow10(k));
    assert(p * 10 == 10 * p);
    if n >= 0 {
        lemma_div_denominator(n, p, 10);
        assert(n / p >= 0) by (nonlinear_arith)
            requires
                n >= 0,
                p > 0,
        ;
    } else {
        lemma_div_denominator(-n, p, 10);
        assert((-n) / p >= 0) by (nonlinear_arith)
            requires
                -n >= 0,
                p > 0,
        ;
    }
}

/// The Euclidean quotient of a number that is not negative lies between the
/// number and its opposite, and strictly so on the lower side where the
/// divisor is less than minus one.
pub proof fn lemma_quotient_bound(n: int, d: int)
    requires
        n >= 0,
        d != 0,
    ensures
        -n <= n / d <= n,
        n > 0 && d <= -2 ==> -n < n / d,
        d > 0 ==> 0 <= n / d,
{
    if d > 0 {
        lemma_div_pos_is_pos(n, d);
        lemma_div_is_ordered_by_denominator(n, 1, d);
        assert(n / 1 == n);
    } else {
        assert(-n <= n / d <= n) by (nonlinear_arith)
            requires
                n >= 0,
                d < 0,
        ;
        assert(n > 0 && d <= -2 ==> -n < n / d) by (nonlinear_arith)
            requires
                n >= 0,
                d < 0,
        ;
    }
}

/// The quotient of two `i64` values, rounded toward zero, is the value of
/// an `i64`, but for `i64::MIN` divided by minus one.
pub proof fn lemma_truncated_quotient_fits(a: int, b: int)
    requires
        fits_i64(a),
        fits_i64(b),
        b != 0,
        !(a == i64::MIN && b == -1),
    ensures
        fits_i64(truncated_quotient(a, b)),
{
    if a >= 0 {
        lemma_quotient_bound(a, b);
    } else {
        lemma_quotient_bound(-a, b);
        if b == -1 {
            assert((-a) / b == a) by (nonlinear_arith)
                requires
                    b == -1,
            ;
        }
    }
}

/// `n` divided by ten to the power `down_by`, rounded toward zero.
pub fn downscale(n: &i64, down_by: u32) -> (r: i64)
    ensures
        r == truncated_quotient(*n as int, pow10(down_by as nat) as int),
{
    let mut result: i64 = *n;
    let mut i: u32 = 0;
    assert(pow10(0) == 1);
    while i < down_by
        invariant
            i <= down_by,
            result == truncated_quotient(*n as int, pow10(i as nat) as int),
        decreases down_by - i,
    {
        proof {
            lemma_truncated_quotient_step(*n as int, i as nat);
        }
        result = result / 10;
        i = i + 1;
    }
    result
}

/// `n` multiplied by ten to the power `up_by`.
pub fn upscale(n: &i64, up_by: u32) -> (r: i64)
    requires
        fits_i64(*n * pow10(up_by as nat)),
    ensures
        r == *n * pow10(up_by as nat),
{
    let mut result: i64 = *n;
    let mut i: u32 = 0;
    assert(*n * pow10(0) == *n) by (nonlinear_arith)
        requires
            pow10(0) == 1,
    ;
    while i < up_by
        invariant
            i <= up_by,
            result == *n * pow10(i as nat),
            fits_i64(*n * pow10(up_by as nat)),
        decreases up_by - i,
    {
        proof {
            lemma_scaled_between(*n as int, (i + 1) as nat, up_by as nat);
            assert(*n * pow10((i + 1) as nat) == (*n * pow10(i as nat)) * 10) by (nonlinear_arith)
                requires
                    pow10((i + 1) as nat) == 10 * pow10(i as nat),
            ;
        }
        result = result * 10;
        i = i + 1;
    }
    result
}

/// `n` multiplied by ten to the power `up_by`, where that is the value of
/// an `i64`.
pub fn upscale_checked(n: i64, up_by: u32) -> (r: Option<i64>)
    ensures
        r is Some == fits_i64(n * pow10(up_by as nat)),
        r matches Some(v) ==> v == n * pow10(up_by as nat),
{
    if n == 0 {
        return Some(0);
    }
    let mut result: i64 = n;
    let mut i: u32 = 0;
    assert(n * pow10(0) == n) by (nonlinear_arith)
        requires
            pow10(0) == 1,
    ;
    while i < up_by
        invariant
            i <= up_by,
            n != 0,
            result == n * pow10(i as nat),
        decreases up_by - i,
    {
        proof {
            lemma_scaled_between(n as int, (i + 1) as nat, up_by as nat);
            assert(n * pow10((i + 1) as nat) == (n * pow10(i as nat)) * 10) by (nonlinear_arith)
                requires
                    pow10((i + 1) as nat) == 10 * pow10(i as nat),
            ;
        }
        match result.checked_mul(10) {
            Some(v) => {
                result = v;
            },
            None => {
                return None;
            },
        }
        i = i + 1;
    }
    Some(result)
}

/// The character that stands for the digit `d`.
pub fn digit_to_char(d: u8) -> (c: char)
    requires
        d < 10,
    ensures
        c == digit_char(d as nat),
{
    match d {
        0 => '0',
        1 => '1',
        2 => '2',
        3 => '3',
        4 => '4',
        5 => '5',
        6 => '6',
        7 => '7',
        8 => '8',
        _ => '9',
    }
}

/// The value of `c`, if it is a digit.
pub fn char_to_digit(c: char) -> (d: Option<u8>)
    ensures
        d is Some == is_digit(c),
        d matches Some(v) ==> v == digit_value(c),
{
    match c {
        '0' => Some(0),
        '1' => Some(1),
        '2' => Some(2),
        '3' => Some(3),
        '4' => Some(4),
        '5' => Some(5),
        '6' => Some(6),
        '7' => Some(7),
        '8' => Some(8),
        '9' => Some(9),
        _ => None,
    }
}

/// The digits of `n` in base ten.
pub fn digits_of(n: u64) -> (v: Vec<char>)
    ensures
        v@ == digits(n as nat),
    decreases n,
{
    if n < 10 {
        let mut v: Vec<char> = Vec::new();
        v.push(digit_to_char(n as u8));
        v
    } else {
        let mut v = digits_of(n / 10);
        v.push(digit_to_char((n % 10) as u8));
        v
    }
}

/// Adds the characters of `chars` at the end of `s`.
pub fn push_chars(s: &mut String, chars: &Vec<char>)
    ensures
        final(s)@ == old(s)@ + chars@,
{
    let mut i: usize = 0;
    while i < chars.len()
        invariant
            i <= chars.len(),
            s@ == old(s)@ + chars@.take(i as int),
        decreases chars.len() - i,
    {
        s.push(chars[i]);
        i = i + 1;
    }
}

impl DecimalErrorKind {
    /// The message that tells of this error.
    pub open spec fn message(self) -> Seq<char> {
        match self {
            DecimalErrorKind::Empty => "cannot parse decimal from empty string"@,
            DecimalErrorKind::InvalidChar(c, i) => "invalid character '"@.push(c)
                + "' found at index "@ + digits(i as nat),
        }
    }

    /// The message that tells of this error.
    pub fn desc(&self) -> (r: String)
        ensures
            r@ == self.message(),
    {
        match *self {
            DecimalErrorKind::Empty => String::from_str("cannot parse decimal from empty string"),
            DecimalErrorKind::InvalidChar(c, i) => {
                let mut r = String::from_str("invalid character '");
                r.push(c);
                r.append("' found at index ");
                let index = digits_of(i as u64);
                push_chars(&mut r, &index);
                r
            },
        }
    }
}

impl Decimal {
    /// The number `unscaled / 10^scale`.
    pub fn new(unscaled: i64, scale: u32) -> (d: Decimal)
        ensures
            d.unscaled == unscaled,
            d.scale == scale,
    {
        Decimal { unscaled: unscaled, scale: scale }
    }

    /// The integer that stands for this number at the scale `scale`, which
    /// is at least the number's own.
    pub open spec fn scaled_to(self, scale: nat) -> int {
        self.unscaled * pow10((scale - self.scale) as nat)
    }

    /// The unscaled value of this number brought to the scale `new_scale`:
    /// zeros are added to the right, or digits are cut off there.
    pub open spec fn rescaled(self, new_scale: u32) -> int {
        if new_scale >= self.scale {
            self.scaled_to(new_scale as nat)
        } else {
            truncated_quotient(self.unscaled as int, pow10((self.scale - new_scale) as nat) as int)
        }
    }

    /// The size of the unscaled value, without its sign.
    pub open spec fn magnitude(self) -> nat {
        if self.unscaled < 0 {
            (-self.unscaled) as nat
        } else {
            self.unscaled as nat
        }
    }

    /// The number written out: a minus sign if it is negative, its digits,
    /// and a decimal point before the last `scale` of them, with zeros put
    /// in front where the digits are too few.
    pub open spec fn text(self) -> Seq<char> {
        let sign = if self.unscaled < 0 {
            seq!['-']
        } else {
            Seq::<char>::empty()
        };
        let ds = digits(self.magnitude());
        if self.scale == 0 {
            sign + ds
        } else if self.scale >= ds.len() {
            sign + seq!['0', '.'] + zeros((self.scale - ds.len()) as nat) + ds
        } else {
            let split = ds.len() - self.scale;
            sign + ds.take(split).push('.') + ds.skip(split)
        }
    }

    /// Add or truncate places to the right of the decimal.
    pub fn adjust_scale(&self, new_scale: u32) -> (d: Decimal)
        requires
            new_scale > self.scale ==> fits_i64(self.scaled_to(new_scale as nat)),
        ensures
            d.scale == new_scale,
            d.unscaled == self.rescaled(new_scale),
    {
        if self.scale == new_scale {
            assert(self.unscaled * pow10(0) == self.unscaled) by (nonlinear_arith)
                requires
                    pow10(0) == 1,
            ;
            *self
        } else if self.scale > new_scale {
            Decimal::new(downscale(&self.unscaled, self.scale - new_scale), new_scale)
        } else {
            Decimal::new(upscale(&self.unscaled, new_scale - self.scale), new_scale)
        }
    }

    /// The number without its sign.
    pub fn abs(self) -> (d: Decimal)
        requires
            self.unscaled > i64::MIN,
        ensures
            d.scale == self.scale,
            d.unscaled == self.magnitude(),
    {
        let unscaled: i64 = if self.unscaled < 0 {
            -self.unscaled
        } else {
            self.unscaled
        };
        Decimal { unscaled: unscaled, scale: self.scale }
    }

    /// Whether [`Decimal::from_str`] can read the text `s`.
    pub fn is_readable(s: &str) -> (r: bool)
        ensures
            r == readable(s@),
    {
        let len = s.unicode_len();
        if len > u32::MAX as usize {
            return false;
        }
        let mut unscaled: i64 = 0;
        let mut index: u32 = 0;
        for c in it: s.chars()
            invariant
                it.seq() == s@,
                s@.len() <= u32::MAX,
                index == it.index(),
                0 <= unscaled,
                scan(s@.take(it.index())) matches Ok(st) && st.unscaled == unscaled,
                forall|n: int|
                    0 <= n <= it.index() ==> ((#[trigger] scan(s@.take(n))) matches Ok(st)
                        ==> st.unscaled <= i64::MAX),
        {
            let ghost k = it.index();
            proof {
                assert(s@.take(k + 1).drop_last() =~= s@.take(k));
            }
            let sign = c == '-' && index == 0;
            if !sign && c != '.' {
                match char_to_digit(c) {
                    Some(d) => {
                        let grown = match unscaled.checked_mul(10) {
                            Some(v) => v.checked_add(d as i64),
                            None => None,
                        };
                        match grown {
                            Some(v) => {
                                unscaled = v;
                            },
                            None => {
                                return false;
                            },
                        }
                    },
                    None => {
                        proof {
                            assert forall|n: int| 0 <= n <= s@.len() implies ((#[trigger] scan(
                                s@.take(n),
                            )) matches Ok(st) ==> st.unscaled <= i64::MAX) by {
                                if n > k {
                                    assert(s@.take(n).take(k + 1) =~= s@.take(k + 1));
                                    lemma_scan_error_stays(s@.take(n), k + 1);
                                }
                            }
                        }
                        return true;
                    },
                }
            }
            index = index + 1;
        }
        true
    }

    /// Reads a decimal number from text: an optional minus sign, then digits
    /// and decimal points.
    pub fn from_str(s: &str) -> (r: Result<Decimal, ParseDecimalError>)
        requires
            readable(s@),
        ensures
            match parsed(s@) {
                Ok(d) => r == Ok::<Decimal, ParseDecimalError>(d),
                Err(kind) => r matches Err(e) && e.kind() == kind && e.description_text()
                    == kind.message(),
            },
    {
        let mut unscaled: i64 = 0;
        let mut scale: u32 = 0;
        let mut index: u32 = 0;
        let mut negative = false;
        let mut seen_decimal = false;
        for c in it: s.chars()
            invariant
                it.seq() == s@,
                readable(s@),
                index == it.index(),
                scale <= index,
                0 <= unscaled,
                scan(s@.take(it.index())) == Ok::<Scan, DecimalErrorKind>(
                    Scan {
                        unscaled: unscaled as nat,
                        scale: scale as nat,
                        negative: negative,
                        seen_decimal: seen_decimal,
                    },
                ),
        {
            proof {
                let k = it.index();
                assert(s@.take(k + 1).drop_last() =~= s@.take(k));
            }
            if c == '-' && index == 0 {
                negative = true;
            } else if c == '.' {
                seen_decimal = true;
            } else {
                match char_to_digit(c) {
                    Some(d) => {
                        unscaled = (unscaled * 10) + d as i64;
                        if seen_decimal {
                            scale = scale + 1;
                        }
                    },
                    None => {
                        proof {
                            let n = it.index() + 1;
                            lemma_scan_error_stays(s@, n);
                        }
                        return Err(ParseDecimalError::new(DecimalErrorKind::InvalidChar(c, index)));
                    },
                }
            }
            index = index + 1;
        }
        assert(s@.take(s@.len() as int) =~= s@);
        if index == 0 {
            Err(ParseDecimalError::new(DecimalErrorKind::Empty))
        } else {
            Ok(
                Decimal::new(
                    if negative {
                        -unscaled
                    } else {
                        unscaled
                    },
                    scale,
                ),
            )
        }
    }

    /// The number written out, as [`Decimal::text`] says.
    pub fn to_string(&self) -> (r: String)
        ensures
            r@ == self.text(),
    {
        let negative = self.unscaled < 0;
        let magnitude: u64 = if negative {
            ((-(self.unscaled + 1)) as u64) + 1
        } else {
            self.unscaled as u64
        };
        let ds = digits_of(magnitude);
        let mut r = String::new();
        if negative {
            r.push('-');
        }
        let ghost sign = r@;
        if self.scale == 0 {
            push_chars(&mut r, &ds);
            return r;
        }
        let len = ds.len();
        if self.scale as usize >= len {
            r.push('0');
            r.push('.');
            let pad: usize = self.scale as usize - len;
            let mut i: usize = 0;
            while i < pad
                invariant
                    i <= pad,
                    r@ == sign + seq!['0', '.'] + zeros(i as nat),
                decreases pad - i,
            {
                r.push('0');
                i = i + 1;
            }
            push_chars(&mut r, &ds);
        } else {
            let split: usize = len - self.scale as usize;
            let mut i: usize = 0;
            while i < len
                invariant
                    i <= len,
                    len == ds.len(),
                    0 < split < len,
                    r@ == sign + if i <= split {
                        ds@.take(i as int)
                    } else {
                        ds@.take(split as int).push('.') + ds@.subrange(split as int, i as int)
                    },
                decreases len - i,
            {
                if i == split {
                    r.push('.');
                }
                r.push(ds[i]);
                i = i + 1;
            }
        }
        r
    }
}

/// Once reading has met a character that a decimal number cannot have,
/// reading on finds that same character.
pub proof fn lemma_scan_error_stays(s: Seq<char>, n: int)
    requires
        0 <= n <= s.len(),
        scan(s.take(n)) is Err,
    ensures
        scan(s) == scan(s.take(n)),
    decreases s.len(),
{
    if n < s.len() {
        assert(s.drop_last().take(n) =~= s.take(n));
        lemma_scan_error_stays(s.drop_last(), n);
    } else {
        assert(s.take(n) =~= s);
    }
}

/// Why a text could not be read as a decimal number.
#[derive(Debug, PartialEq)]
pub struct ParseDecimalError {
    kind: DecimalErrorKind,
    desc: String,
}

impl ParseDecimalError {
    /// The error of the given kind, with the message that tells of it.
    pub fn new(kind: DecimalErrorKind) -> (e: ParseDecimalError)
        ensures
            e.kind() == kind,
            e.description_text() == kind.message(),
    {
        let desc = kind.desc();
        ParseDecimalError { kind: kind, desc: desc }
    }

    /// What went wrong.
    pub closed spec fn kind(&self) -> DecimalErrorKind {
        self.kind
    }

    /// The message of the error.
    pub closed spec fn description_text(&self) -> Seq<char> {
        self.desc@
    }

    /// What went wrong.
    pub fn error_kind(&self) -> (kind: DecimalErrorKind)
        ensures
            kind == self.kind(),
    {
        self.kind
    }

    /// The message of the error.
    pub fn description(&self) -> (r: &str)
        ensures
            r@ == self.description_text(),
    {
        self.desc.as_str()
    }

    /// The message of the error.
    pub fn to_string(&self) -> (r: String)
        ensures
            r@ == self.description_text(),
    {
        self.desc.clone()
    }
}

impl Clone for ParseDecimalError {
    fn clone(&self) -> (r: ParseDecimalError)
        ensures
            r.kind() == self.kind(),
            r.description_text() == self.description_text(),
    {
        ParseDecimalError { kind: self.kind, desc: self.desc.clone() }
    }
}

/// A number at its own scale is its unscaled value.
pub proof fn lemma_scaled_to_own(d: Decimal)
    ensures
        d.scaled_to(d.scale as nat) == d.unscaled,
{
    assert(d.unscaled * pow10(0) == d.unscaled) by (nonlinear_arith)
        requires
            pow10(0) == 1,
    ;
}

/// Where `a` brought to the scale of `b` leaves the range of `i64`, it
/// leaves it on the side of its sign.
pub proof fn lemma_unfit_side(a: Decimal, b: Decimal)
    requires
        a.scale <= b.scale,
        !fits_i64(a.scaled_to(b.scale as nat)),
    ensures
        a.unscaled != 0,
        a.unscaled > 0 ==> a.scaled_to(b.scale as nat) > i64::MAX,
        a.unscaled < 0 ==> a.scaled_to(b.scale as nat) < i64::MIN,
{
    lemma_scaled_between(a.unscaled as int, 0, (b.scale - a.scale) as nat);
    assert(0 * pow10((b.scale - a.scale) as nat) == 0) by (nonlinear_arith);
}

/// How `a` stands to `b`.
fn order_i64(a: i64, b: i64) -> (r: Ordering)
    ensures
        a < b ==> r == Ordering::Less,
        a == b ==> r == Ordering::Equal,
        a > b ==> r == Ordering::Greater,
{
    if a < b {
        Ordering::Less
    } else if a == b {
        Ordering::Equal
    } else {
        Ordering::Greater
    }
}

/// Decimals are ordered by the numbers they stand for: `1.0` and `1.00`
/// compare as equal, though they are not `==`. Every two decimals can be
/// compared.
impl PartialOrd for Decimal {
    fn partial_cmp(&self, other: &Decimal) -> (r: Option<Ordering>) {
        proof {
            lemma_scaled_to_own(*self);
            lemma_scaled_to_own(*other);
        }
        if self.scale == other.scale {
            Some(order_i64(self.unscaled, other.unscaled))
        } else if self.scale > other.scale {
            match upscale_checked(other.unscaled, self.scale - other.scale) {
                Some(v) => Some(order_i64(self.unscaled, v)),
                None => {
                    proof {
                        lemma_unfit_side(*other, *self);
                    }
                    if other.unscaled > 0 {
                        Some(Ordering::Less)
                    } else {
                        Some(Ordering::Greater)
                    }
                },
            }
        } else {
            match upscale_checked(self.unscaled, other.scale - self.scale) {
                Some(v) => Some(order_i64(v, other.unscaled)),
                None => {
                    proof {
                        lemma_unfit_side(*self, *other);
                    }
                    if self.unscaled > 0 {
                        Some(Ordering::Greater)
                    } else {
                        Some(Ordering::Less)
                    }
                },
            }
        }
    }
}

impl PartialOrdSpecImpl for Decimal {
    open spec fn obeys_partial_cmp_spec() -> bool {
        true
    }

    open spec fn partial_cmp_spec(&self, other: &Decimal) -> Option<Ordering> {
        let scale = common_scale(*self, *other);
        let a = self.scaled_to(scale);
        let b = other.scaled_to(scale);
        Some(
            if a < b {
                Ordering::Less
            } else if a == b {
                Ordering::Equal
            } else {
                Ordering::Greater
            },
        )
    }
}

impl Add for Decimal {
    type Output = Decimal;

    fn add(self, other: Decimal) -> (r: Decimal) {
        proof {
            lemma_scaled_to_own(self);
            lemma_scaled_to_own(other);
        }
        if self.scale == other.scale {
            Decimal::new(self.unscaled + other.unscaled, self.scale)
        } else if self.scale < other.scale {
            let a = self.adjust_scale(other.scale);
            Decimal::new(a.unscaled + other.unscaled, other.scale)
        } else {
            let b = other.adjust_scale(self.scale);
            Decimal::new(self.unscaled + b.unscaled, self.scale)
        }
    }
}

impl AddSpecImpl for Decimal {
    open spec fn obeys_add_spec() -> bool {
        true
    }

    open spec fn add_req(self, other: Decimal) -> bool {
        let scale = common_scale(self, other);
        &&& fits_i64(self.scaled_to(scale))
        &&& fits_i64(other.scaled_to(scale))
        &&& fits_i64(self.scaled_to(scale) + other.scaled_to(scale))
    }

    open spec fn add_spec(self, other: Decimal) -> Decimal {
        let scale = common_scale(self, other);
        Decimal {
            unscaled: (self.scaled_to(scale) + other.scaled_to(scale)) as i64,
            scale: scale as u32,
        }
    }
}

impl Sub for Decimal {
    type Output = Decimal;

    fn sub(self, other: Decimal) -> (r: Decimal) {
        proof {
            lemma_scaled_to_own(self);
            lemma_scaled_to_own(other);
        }
        if self.scale == other.scale {
            Decimal::new(self.unscaled - other.unscaled, self.scale)
        } else if self.scale < other.scale {
            let a = self.adjust_scale(other.scale);
            Decimal::new(a.unscaled - other.unscaled, other.scale)
        } else {
            let b = other.adjust_scale(self.scale);
            Decimal::new(self.unscaled - b.unscaled, self.scale)
        }
    }
}

impl SubSpecImpl for Decimal {
    open spec fn obeys_sub_spec() -> bool {
        true
    }

    open spec fn sub_req(self, other: Decimal) -> bool {
        let scale = common_scale(self, other);
        &&& fits_i64(self.scaled_to(scale))
        &&& fits_i64(other.scaled_to(scale))
        &&& fits_i64(self.scaled_to(scale) - other.scaled_to(scale))
    }

    open spec fn sub_spec(self, other: Decimal) -> Decimal {
        let scale = common_scale(self, other);
        Decimal {
            unscaled: (self.scaled_to(scale) - other.scaled_to(scale)) as i64,
            scale: scale as u32,
        }
    }
}

impl Decimal {
    /// Whether the product with `other` can be computed: the unscaled
    /// values have a product that is the value of an `i64`, and the scales
    /// a sum that is the value of a `u32`.
    pub open spec fn has_product(self, other: Decimal) -> bool {
        &&& fits_i64(self.unscaled * other.unscaled)
        &&& self.scale + other.scale <= u32::MAX
    }

    /// The product with `other`: the unscaled values are multiplied and the
    /// scales added.
    pub open spec fn product(self, other: Decimal) -> Decimal {
        Decimal {
            unscaled: (self.unscaled * other.unscaled) as i64,
            scale: (self.scale + other.scale) as u32,
        }
    }
}

impl Mul for Decimal {
    type Output = Decimal;

    fn mul(self, other: Decimal) -> (r: Decimal) {
        Decimal::new(self.unscaled * other.unscaled, self.scale + other.scale)
    }
}

impl MulSpecImpl for Decimal {
    open spec fn obeys_mul_spec() -> bool {
        true
    }

    open spec fn mul_req(self, other: Decimal) -> bool {
        self.has_product(other)
    }

    open spec fn mul_spec(self, other: Decimal) -> Decimal {
        self.product(other)
    }
}

impl Mul<i64> for Decimal {
    type Output = Decimal;

    fn mul(self, i: i64) -> (r: Decimal) {
        Decimal::new(self.unscaled * i, self.scale)
    }
}

impl MulSpecImpl<i64> for Decimal {
    open spec fn obeys_mul_spec() -> bool {
        true
    }

    open spec fn mul_req(self, i: i64) -> bool {
        fits_i64(self.unscaled * i)
    }

    open spec fn mul_spec(self, i: i64) -> Decimal {
        Decimal { unscaled: (self.unscaled * i) as i64, scale: self.scale }
    }
}

impl Mul<Decimal> for i64 {
    type Output = Decimal;

    fn mul(self, d: Decimal) -> (r: Decimal) {
        Decimal::new(self * d.unscaled, d.scale)
    }
}

impl MulSpecImpl<Decimal> for i64 {
    open spec fn obeys_mul_spec() -> bool {
        true
    }

    open spec fn mul_req(self, d: Decimal) -> bool {
        fits_i64(self * d.unscaled)
    }

    open spec fn mul_spec(self, d: Decimal) -> Decimal {
        Decimal { unscaled: (self * d.unscaled) as i64, scale: d.scale }
    }
}

impl Decimal {
    /// The scale at which this number is divided by `other`: its own, or
    /// that of `other` where that is larger.
    pub open spec fn dividend_scale(self, other: Decimal) -> u32 {
        if other.scale > self.scale {
            other.scale
        } else {
            self.scale
        }
    }

    /// Whether this number can be divided by `other`: `other` is not zero,
    /// this number fits at the scale of the division, and the quotient is
    /// the value of an `i64`.
    pub open spec fn divisible_by(self, other: Decimal) -> bool {
        let dividend = self.scaled_to(self.dividend_scale(other) as nat);
        &&& other.unscaled != 0
        &&& fits_i64(dividend)
        &&& !(dividend == i64::MIN && other.unscaled == -1)
    }
}

impl Decimal {
    /// The quotient by `other`: this number is brought to the scale of
    /// `other` where that is larger, the unscaled values are divided,
    /// rounding toward zero, and the scales subtracted.
    pub open spec fn quotient(self, other: Decimal) -> Decimal {
        let scale = self.dividend_scale(other);
        Decimal {
            unscaled: truncated_quotient(self.scaled_to(scale as nat), other.unscaled as int) as i64,
            scale: (scale - other.scale) as u32,
        }
    }

    /// The remainder of the division by `other`, at the scale at which the
    /// division is made.
    pub open spec fn remainder(self, other: Decimal) -> Decimal {
        let scale = self.dividend_scale(other);
        Decimal {
            unscaled: truncated_remainder(self.scaled_to(scale as nat), other.unscaled as int) as i64,
            scale: scale,
        }
    }
}

impl Div for Decimal {
    type Output = Decimal;

    fn div(self, other: Decimal) -> (r: Decimal) {
        proof {
            lemma_scaled_to_own(self);
        }
        let s = if other.scale > self.scale {
            self.adjust_scale(other.scale)
        } else {
            self
        };
        Decimal::new(s.unscaled / other.unscaled, s.scale - other.scale)
    }
}

impl DivSpecImpl for Decimal {
    open spec fn obeys_div_spec() -> bool {
        true
    }

    open spec fn div_req(self, other: Decimal) -> bool {
        self.divisible_by(other)
    }

    open spec fn div_spec(self, other: Decimal) -> Decimal {
        self.quotient(other)
    }
}

impl Rem for Decimal {
    type Output = Decimal;

    fn rem(self, other: Decimal) -> (r: Decimal) {
        proof {
            lemma_scaled_to_own(self);
        }
        let s = if other.scale > self.scale {
            self.adjust_scale(other.scale)
        } else {
            self
        };
        Decimal::new(s.unscaled % other.unscaled, s.scale)
    }
}

impl RemSpecImpl for Decimal {
    open spec fn obeys_rem_spec() -> bool {
        true
    }

    open spec fn rem_req(self, other: Decimal) -> bool {
        self.divisible_by(other)
    }

    open spec fn rem_spec(self, other: Decimal) -> Decimal {
        self.remainder(other)
    }
}

} // verus!
