//! Decimal amounts and their conversion to whole units per year.
//!
//! An amount is text such as `120000`, `52.50` or `120k`. It is read
//! exactly, digit by digit: no binary fraction stands in for it.

use crate::salary::SalaryError;
use crate::text::{
    chars_of, find, find_chars, lemma_find_from_is_first, lemma_replaced_without_occurrence,
    occurs_at, replace_chars, replaced, same_text, slice_chars,
};
use vstd::arithmetic::div_mod::{lemma_fundamental_div_mod, lemma_fundamental_div_mod_converse};
use vstd::prelude::*;

verus! {

/// The hours of work in a year, by which an hourly amount is multiplied.
pub const WORKING_HOURS_PER_YEAR: u64 = 2080;

/// By how much the suffix `k` multiplies an amount.
pub const THOUSAND: u64 = 1000;

/// The greatest factor by which an amount is multiplied: that of an hourly
/// amount in thousands.
pub const GREATEST_FACTOR: u64 = 2_080_000;

/// Amounts at or above this bound all saturate.
pub const AMOUNT_CAP: u64 = 0x1_0000_0000;

pub open spec fn is_digit(c: char) -> bool {
    0x30 <= c as u32 <= 0x39
}

pub open spec fn digit_value(c: char) -> nat {
    (c as u32 - 0x30) as nat
}

pub open spec fn all_digits(s: Seq<char>) -> bool {
    forall|i: int| 0 <= i < s.len() ==> is_digit(#[trigger] s[i])
}

/// The number that a run of decimal digits writes.
pub open spec fn digits_value(s: Seq<char>) -> nat
    decreases s.len(),
{
    if s.len() == 0 {
        0
    } else {
        digits_value(s.drop_last()) * 10 + digit_value(s.last())
    }
}

pub open spec fn pow10(n: nat) -> nat
    decreases n,
{
    if n == 0 {
        1
    } else {
        10 * pow10((n - 1) as nat)
    }
}

/// `a / b`, rounded to the nearest whole number, a half rounding up.
pub open spec fn round_half_up(a: int, b: int) -> int {
    (2 * a + b) / (2 * b)
}

/// The digits before and after the decimal point.
pub open spec fn decimal_parts(s: Seq<char>) -> (Seq<char>, Seq<char>) {
    match find(s, seq!['.']) {
        Some(p) => (s.take(p), s.skip(p + 1)),
        None => (s, Seq::empty()),
    }
}

/// A decimal number: digits, with at most one point among them, and at
/// least one digit.
pub open spec fn is_decimal(s: Seq<char>) -> bool {
    let (whole, fraction) = decimal_parts(s);
    all_digits(whole) && all_digits(fraction) && whole.len() + fraction.len() > 0
}

/// The decimal number `s` times `factor`, rounded to the nearest whole
/// number.
pub open spec fn scaled_amount(s: Seq<char>, factor: int) -> int {
    let (whole, fraction) = decimal_parts(s);
    let unit = pow10(fraction.len()) as int;
    round_half_up((digits_value(whole) * unit + digits_value(fraction)) * factor, unit)
}

pub open spec fn saturated(n: int) -> u32 {
    if n > u32::MAX {
        u32::MAX
    } else {
        n as u32
    }
}

/// By how much an amount in `unit` is multiplied to make it yearly.
pub open spec fn yearly_factor(unit: Seq<char>) -> Option<int> {
    if unit == "hour"@ || unit == "hr"@ {
        Some(WORKING_HOURS_PER_YEAR as int)
    } else if unit == "year"@ {
        Some(1)
    } else {
        None
    }
}

/// An amount as written, without its thousands separators.
pub open spec fn cleaned(value: Seq<char>) -> Seq<char> {
    replaced(value, seq![','], Seq::empty())
}

/// Whether an amount is given in thousands: it ends in `k`.
pub open spec fn in_thousands(text: Seq<char>) -> bool {
    text.len() > 0 && text.last() == 'k'
}

/// The number of an amount: the amount without the `k` at its end.
pub open spec fn number_part(text: Seq<char>) -> Seq<char> {
    if in_thousands(text) {
        text.drop_last()
    } else {
        text
    }
}

/// By how much the suffix of an amount multiplies its number.
pub open spec fn suffix_factor(text: Seq<char>) -> int {
    if in_thousands(text) {
        THOUSAND as int
    } else {
        1
    }
}

/// The yearly amount that `value` in `unit` stands for: its decimal
/// number, times a thousand where it ends in `k`, times the factor of the
/// unit, rounded and saturated. A malformed number is reported before an
/// unknown unit.
pub open spec fn yearly_bound_of(value: Seq<char>, unit: Seq<char>) -> Result<u32, SalaryError> {
    let text = cleaned(value);
    if !is_decimal(number_part(text)) {
        Err(SalaryError::MalformedBound)
    } else {
        match yearly_factor(unit) {
            Some(factor) => Ok(
                saturated(scaled_amount(number_part(text), factor * suffix_factor(text))),
            ),
            None => Err(SalaryError::UnknownUnit),
        }
    }
}

proof fn lemma_pow10_positive(n: nat)
    ensures
        pow10(n) > 0,
    decreases n,
{
    if n > 0 {
        lemma_pow10_positive((n - 1) as nat);
    }
}

/// The value of a run of digits, read from its first digit.
proof fn lemma_value_from_front(s: Seq<char>)
    requires
        s.len() > 0,
    ensures
        digits_value(s) == digit_value(s[0]) * pow10((s.len() - 1) as nat) + digits_value(
            s.skip(1),
        ),
    decreases s.len(),
{
    let first = digit_value(s[0]) as int;
    let last = digit_value(s.last()) as int;
    if s.len() == 1 {
        assert(s.drop_last().len() == 0);
        assert(s.skip(1).len() == 0);
        assert(digits_value(s.drop_last()) == 0);
        assert(digits_value(s.skip(1)) == 0);
        assert(pow10(0) == 1);
        assert(first * 1 == first);
    } else {
        let init = s.drop_last();
        lemma_value_from_front(init);
        assert(init.skip(1) == s.skip(1).drop_last());
        assert(init[0] == s[0]);
        assert(s.skip(1).last() == s.last());
        let p = pow10((s.len() - 2) as nat) as int;
        let big = pow10((s.len() - 1) as nat) as int;
        assert(big == 10 * p);
        let middle = digits_value(init.skip(1)) as int;
        assert(digits_value(s.skip(1)) == middle * 10 + last);
        assert(digits_value(init) == first * p + middle);
        assert(digits_value(s) == digits_value(init) * 10 + last);
        assert((first * p + middle) * 10 + last == first * big + (middle * 10 + last))
            by (nonlinear_arith)
            requires
                big == 10 * p,
        ;
    }
}

/// Rounding a sum of a whole part and a fraction: the whole part passes
/// through, and the fraction adds one when it is a half or more.
proof fn lemma_round_split(whole: int, part: int, unit: int)
    requires
        unit > 0,
        part >= 0,
    ensures
        round_half_up(whole * unit + part, unit) == whole + part / unit + (if 2 * (part % unit)
            >= unit {
            1int
        } else {
            0int
        }),
{
    let q = part / unit;
    let r = part % unit;
    lemma_fundamental_div_mod(part, unit);
    vstd::arithmetic::div_mod::lemma_mod_pos_bound(part, unit);
    let up: int = if 2 * r >= unit { 1 } else { 0 };
    let total = 2 * (whole * unit + part) + unit;
    let quotient = whole + q + up;
    let rest = 2 * r + unit - up * (2 * unit);
    assert(total == quotient * (2 * unit) + rest) by (nonlinear_arith)
        requires
            part == unit * q + r,
            total == 2 * (whole * unit + part) + unit,
            quotient == whole + q + up,
            rest == 2 * r + unit - up * (2 * unit),
    ;
    assert(0 <= rest < 2 * unit);
    lemma_fundamental_div_mod_converse(total, 2 * unit, quotient, rest);
}

/// Digits alone are a decimal number, and scaling it multiplies the number
/// that they write.
proof fn lemma_digits_are_decimal(number: Seq<char>, factor: int)
    requires
        all_digits(number),
        number.len() > 0,
    ensures
        is_decimal(number),
        scaled_amount(number, factor) == digits_value(number) * factor,
{
    let dot = seq!['.'];
    assert forall|i: int| !occurs_at(number, dot, i) by {
        if occurs_at(number, dot, i) {
            assert(number.subrange(i, i + 1)[0] == number[i]);
            assert(is_digit(number[i]));
        }
    }
    lemma_find_from_is_first(number, dot, 0);
    assert(find(number, dot) is None);
    assert(decimal_parts(number) == (number, Seq::<char>::empty()));
    assert(pow10(0) == 1);
    assert(digits_value(Seq::<char>::empty()) == 0);
    let whole = digits_value(number) as int;
    let product = whole * factor;
    assert((whole * 1 + 0) * factor == product) by (nonlinear_arith)
        requires
            product == whole * factor,
    ;
    assert((2 * product + 1) / 2 == product);
    assert(round_half_up(product, 1) == product);
}

/// A whole amount, written in digits alone, stands for its number times
/// the factor of its unit: an hourly amount for that many times the
/// hours of work in a year.
pub proof fn lemma_whole_amount(value: Seq<char>, unit: Seq<char>)
    requires
        all_digits(value),
        value.len() > 0,
    ensures
        yearly_bound_of(value, unit) == match yearly_factor(unit) {
            Some(factor) => Ok::<u32, SalaryError>(saturated(digits_value(value) * factor)),
            None => Err::<u32, SalaryError>(SalaryError::UnknownUnit),
        },
{
    let comma = seq![','];
    assert forall|i: int| !occurs_at(value, comma, i) by {
        if occurs_at(value, comma, i) {
            assert(value.subrange(i, i + 1)[0] == value[i]);
            assert(is_digit(value[i]));
        }
    }
    lemma_replaced_without_occurrence(value, comma, Seq::empty());
    assert(cleaned(value) == value);
    assert(is_digit(value[value.len() - 1]));
    assert(!in_thousands(value));
    match yearly_factor(unit) {
        Some(factor) => {
            assert(factor * suffix_factor(value) == factor);
            lemma_digits_are_decimal(value, factor);
        },
        None => {
            lemma_digits_are_decimal(value, 1);
        },
    }
}

/// A whole amount that ends in `k` stands for a thousand times its number,
/// times the factor of its unit.
pub proof fn lemma_amount_in_thousands(number: Seq<char>, unit: Seq<char>)
    requires
        all_digits(number),
        number.len() > 0,
    ensures
        yearly_bound_of(number.push('k'), unit) == match yearly_factor(unit) {
            Some(factor) => Ok::<u32, SalaryError>(
                saturated(digits_value(number) * (factor * THOUSAND)),
            ),
            None => Err::<u32, SalaryError>(SalaryError::UnknownUnit),
        },
{
    let value = number.push('k');
    let comma = seq![','];
    assert forall|i: int| !occurs_at(value, comma, i) by {
        if occurs_at(value, comma, i) {
            assert(value.subrange(i, i + 1)[0] == value[i]);
            if i < number.len() {
                assert(is_digit(number[i]));
            }
        }
    }
    lemma_replaced_without_occurrence(value, comma, Seq::empty());
    assert(cleaned(value) == value);
    assert(in_thousands(value));
    assert(number_part(value) =~= number);
    match yearly_factor(unit) {
        Some(factor) => {
            lemma_digits_are_decimal(number, factor * THOUSAND);
        },
        None => {
            lemma_digits_are_decimal(number, 1);
        },
    }
}

/// Whether every character is a decimal digit.
pub fn only_digits(v: &Vec<char>) -> (r: bool)
    ensures
        r == all_digits(v@),
{
    let mut i: usize = 0;
    while i < v.len()
        invariant
            i <= v.len(),
            forall|j: int| 0 <= j < i ==> is_digit(#[trigger] v@[j]),
        decreases v.len() - i,
    {
        let n: u32 = v[i] as u32;
        if n < 0x30 || n > 0x39 {
            return false;
        }
        i += 1;
    }
    true
}

/// The number that the digits write, or the cap where it is larger.
fn capped_value(v: &Vec<char>) -> (r: u64)
    requires
        all_digits(v@),
    ensures
        r == if digits_value(v@) < AMOUNT_CAP {
            digits_value(v@)
        } else {
            AMOUNT_CAP as nat
        },
{
    let mut acc: u64 = 0;
    let mut i: usize = 0;
    assert(v@.take(0) =~= Seq::<char>::empty());
    while i < v.len()
        invariant
            i <= v.len(),
            all_digits(v@),
            acc <= AMOUNT_CAP,
            acc == if digits_value(v@.take(i as int)) < AMOUNT_CAP {
                digits_value(v@.take(i as int))
            } else {
                AMOUNT_CAP as nat
            },
        decreases v.len() - i,
    {
        let d: u64 = (v[i] as u32 - 0x30) as u64;
        proof {
            let now = v@.take(i + 1);
            assert(now.drop_last() =~= v@.take(i as int));
            assert(now.last() == v@[i as int]);
            assert(d == digit_value(v@[i as int]));
        }
        let next: u64 = acc * 10 + d;
        acc = if next < AMOUNT_CAP { next } else { AMOUNT_CAP };
        i += 1;
    }
    assert(v@.take(v@.len() as int) =~= v@);
    acc
}

/// The fraction `0.d1 d2 ..` times `factor`: its whole part, and whether
/// what is left over is a half or more.
fn scaled_fraction(v: &Vec<char>, factor: u64) -> (r: (u64, bool))
    requires
        all_digits(v@),
        1 <= factor <= GREATEST_FACTOR,
    ensures
        r.0 == (digits_value(v@) * factor) / (pow10(v@.len()) as int),
        r.0 < factor,
        r.1 == (2 * ((digits_value(v@) * factor) % (pow10(v@.len()) as int)) >= pow10(v@.len())),
{
    let n: usize = v.len();
    let mut carry: u64 = 0;
    let mut top: u64 = 0;
    let mut i: usize = n;
    let ghost mut low: int = 0;
    proof {
        assert(v@.skip(n as int) =~= Seq::<char>::empty());
        assert(digits_value(v@.skip(n as int)) == 0);
        assert(pow10(0) == 1);
        assert(0 * factor == 0);
    }
    while i > 0
        invariant
            i <= n,
            n == v.len(),
            all_digits(v@),
            1 <= factor <= GREATEST_FACTOR,
            carry < factor,
            top <= 9,
            0 <= low < pow10((n - i) as nat),
            carry * pow10((n - i) as nat) + low == digits_value(v@.skip(i as int)) * factor,
            i < n ==> top * pow10((n - i - 1) as nat) <= low < (top + 1) * pow10(
                (n - i - 1) as nat,
            ),
            i == n ==> top == 0,
        decreases i,
    {
        i -= 1;
        assert(is_digit(v@[i as int]));
        let d: u64 = (v[i] as u32 - 0x30) as u64;
        assert(d * factor <= 9 * factor <= 9 * GREATEST_FACTOR) by (nonlinear_arith)
            requires
                d <= 9,
                factor <= GREATEST_FACTOR,
        ;
        let t: u64 = d * factor + carry;
        proof {
            let suffix = v@.skip(i as int);
            let unit = pow10((n - i - 1) as nat);
            lemma_pow10_positive((n - i - 1) as nat);
            lemma_value_from_front(suffix);
            assert(suffix.skip(1) =~= v@.skip(i + 1));
            assert(suffix[0] == v@[i as int]);
            assert(d == digit_value(v@[i as int]));
            let rest = digits_value(v@.skip(i + 1));
            assert(pow10((n - i) as nat) == 10 * unit);
            let new_low = (t % 10) * unit + low;
            assert((t / 10) * (10 * unit) + new_low == (d * unit + rest) * factor)
                by (nonlinear_arith)
                requires
                    carry * unit + low == rest * factor,
                    t == d * factor + carry,
                    new_low == (t % 10) * unit + low,
                    t == 10 * (t / 10) + t % 10,
            ;
            assert((t % 10) * unit <= new_low < (t % 10 + 1) * unit) by (nonlinear_arith)
                requires
                    new_low == (t % 10) * unit + low,
                    0 <= low < unit,
            ;
            assert(new_low < 10 * unit) by (nonlinear_arith)
                requires
                    new_low < (t % 10 + 1) * unit,
                    t % 10 <= 9,
                    unit > 0,
            ;
            low = new_low;
        }
        carry = t / 10;
        top = t % 10;
    }
    proof {
        let unit = pow10(n as nat);
        lemma_pow10_positive(n as nat);
        assert(v@.skip(0) =~= v@);
        let product = digits_value(v@) * factor;
        assert(product == carry * unit + low);
        lemma_fundamental_div_mod_converse(product, unit as int, carry as int, low);
        if n > 0 {
            let sub = pow10((n - 1) as nat);
            lemma_pow10_positive((n - 1) as nat);
            assert(unit == 10 * sub);
            assert((top >= 5) == (2 * low >= unit)) by (nonlinear_arith)
                requires
                    top * sub <= low < (top + 1) * sub,
                    unit == 10 * sub,
                    sub > 0,
            ;
        } else {
            assert(low == 0);
        }
    }
    (carry, top >= 5)
}

/// The decimal number in `text` times `factor`, rounded and saturated.
fn scaled_decimal(text: &Vec<char>, factor: u64) -> (r: Option<u32>)
    requires
        1 <= factor <= GREATEST_FACTOR,
    ensures
        match r {
            Some(n) => is_decimal(text@) && n == saturated(scaled_amount(text@, factor as int)),
            None => !is_decimal(text@),
        },
{
    let dot: Vec<char> = vec!['.'];
    assert(dot@ =~= seq!['.']);
    let found = find_chars(text, &dot);
    let len: usize = text.len();
    let (whole, fraction) = match found {
        Some(p) => {
            let after: usize = p + 1;
            (slice_chars(text, 0, p), slice_chars(text, after, len))
        },
        None => (slice_chars(text, 0, len), Vec::new()),
    };
    proof {
        assert(text@.subrange(0, len as int) =~= text@);
        assert(fraction@ =~= decimal_parts(text@).1);
        assert(whole@ =~= decimal_parts(text@).0);
    }
    if !only_digits(&whole) || !only_digits(&fraction) {
        return None;
    }
    let whole_len: usize = whole.len();
    let fraction_len: usize = fraction.len();
    if whole_len == 0 && fraction_len == 0 {
        return None;
    }
    let head = capped_value(&whole);
    let (tail, half) = scaled_fraction(&fraction, factor);
    assert(head * factor <= AMOUNT_CAP * GREATEST_FACTOR) by (nonlinear_arith)
        requires
            head <= AMOUNT_CAP,
            factor <= GREATEST_FACTOR,
    ;
    let total: u64 = head * factor + tail + if half { 1 } else { 0 };
    proof {
        let unit = pow10(fraction@.len()) as int;
        lemma_pow10_positive(fraction@.len());
        let exact_head = digits_value(whole@) as int;
        let exact_tail = digits_value(fraction@) as int;
        let part = exact_tail * factor;
        assert(part >= 0) by (nonlinear_arith)
            requires
                part == exact_tail * factor,
                exact_tail >= 0,
                factor >= 0,
        ;
        assert((exact_head * unit + exact_tail) * factor == (exact_head * factor) * unit + part)
            by (nonlinear_arith)
            requires
                part == exact_tail * factor,
        ;
        lemma_round_split(exact_head * factor, part, unit);
        let exact = scaled_amount(text@, factor as int);
        assert(exact == exact_head * factor + part / unit + (if 2 * (part % unit) >= unit {
            1int
        } else {
            0int
        }));
        if exact_head >= AMOUNT_CAP {
            assert(exact_head * factor >= AMOUNT_CAP) by (nonlinear_arith)
                requires
                    exact_head >= AMOUNT_CAP,
                    factor >= 1,
            ;
            assert(head * factor >= AMOUNT_CAP) by (nonlinear_arith)
                requires
                    head >= AMOUNT_CAP,
                    factor >= 1,
            ;
        } else {
            assert(total == exact);
        }
    }
    if total > 0xFFFF_FFFF {
        Some(0xFFFF_FFFF)
    } else {
        Some(total as u32)
    }
}

/// The yearly amount that `value` stands for, given in `unit`: `hr` or
/// `hour` for an hourly amount, `year` for a yearly one.
pub fn parse_yearly_bound(value: &str, unit: &str) -> (r: Result<u32, SalaryError>)
    ensures
        r == yearly_bound_of(value@, unit@),
{
    let raw = chars_of(value);
    let comma: Vec<char> = vec![','];
    let nothing: Vec<char> = Vec::new();
    proof {
        assert(comma@ =~= seq![',']);
        assert(nothing@ =~= Seq::<char>::empty());
    }
    let text = replace_chars(&raw, &comma, &nothing);
    let len: usize = text.len();
    let thousands: bool = len > 0 && text[len - 1] == 'k';
    let number = if thousands {
        assert(text@.subrange(0, len - 1) =~= text@.drop_last());
        slice_chars(&text, 0, len - 1)
    } else {
        assert(text@.subrange(0, len as int) =~= text@);
        slice_chars(&text, 0, len)
    };
    let hourly = same_text(unit, "hour") || same_text(unit, "hr");
    let yearly = same_text(unit, "year");
    let by_unit: u64 = if hourly { WORKING_HOURS_PER_YEAR } else { 1 };
    let factor: u64 = if thousands { by_unit * THOUSAND } else { by_unit };
    match scaled_decimal(&number, factor) {
        None => Err(SalaryError::MalformedBound),
        Some(n) => {
            if hourly || yearly {
                Ok(n)
            } else {
                Err(SalaryError::UnknownUnit)
            }
        },
    }
}

/// An amount as structured data gives it: as text, or as a number.
#[derive(Debug, PartialEq, Eq)]
pub enum Amount {
    Text(String),
    Number(u64),
}

/// An `Amount` as plain values.
pub ghost enum AmountView {
    Text(Seq<char>),
    Number(u64),
}

impl View for Amount {
    type V = AmountView;

    open spec fn view(&self) -> AmountView {
        match *self {
            Amount::Text(t) => AmountView::Text(t@),
            Amount::Number(n) => AmountView::Number(n),
        }
    }
}

impl Clone for Amount {
    fn clone(&self) -> (r: Amount)
        ensures
            r@ == self@,
    {
        match self {
            Amount::Text(t) => Amount::Text(t.clone()),
            Amount::Number(n) => Amount::Number(*n),
        }
    }
}

pub open spec fn opt_amount_view(amount: Option<Amount>) -> Option<AmountView> {
    match amount {
        Some(a) => Some(a@),
        None => None,
    }
}

/// The yearly amount that a structured amount in `unit` stands for: a text
/// is read as a decimal number, a number is taken as it is, unless it is
/// too large for a salary; both are multiplied by the factor of the unit
/// and saturate.
pub open spec fn structured_bound_of(amount: AmountView, unit: Seq<char>) -> Result<
    u32,
    SalaryError,
> {
    match amount {
        AmountView::Text(text) => yearly_bound_of(text, unit),
        AmountView::Number(n) => if n > u32::MAX {
            Err(SalaryError::BoundTooLarge)
        } else {
            match yearly_factor(unit) {
                Some(factor) => Ok(saturated(n * factor)),
                None => Err(SalaryError::UnknownUnit),
            }
        },
    }
}

/// The yearly amount of a structured amount given in `unit`.
pub fn structured_bound(amount: &Amount, unit: &str) -> (r: Result<u32, SalaryError>)
    ensures
        r == structured_bound_of(amount@, unit@),
{
    match amount {
        Amount::Text(text) => parse_yearly_bound(text.as_str(), unit),
        Amount::Number(n) => {
            if *n > 0xFFFF_FFFF {
                return Err(SalaryError::BoundTooLarge);
            }
            let hourly = same_text(unit, "hour") || same_text(unit, "hr");
            let yearly = same_text(unit, "year");
            if !hourly && !yearly {
                return Err(SalaryError::UnknownUnit);
            }
            let factor: u128 = if hourly { 2080 } else { 1 };
            let total: u128 = (*n as u128) * factor;
            if total > 0xFFFF_FFFF {
                Ok(0xFFFF_FFFF)
            } else {
                Ok(total as u32)
            }
        },
    }
}

} // verus!
