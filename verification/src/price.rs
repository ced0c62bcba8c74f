//! Prices as text: which strings are a number, and which count of millionths
//! each stands for.

use vstd::prelude::*;
use vstd::string::StrSliceExecFns;
use crate::decode::DecodeError;

verus! {

/// The largest exponent that is read digit by digit. A larger one moves the
/// point beyond every digit that a text can hold.
pub const MAX_EXPONENT: u128 = 1_000_000_000_000_000_000_000_000_000_000;

/// More places than any text has digits.
pub const FAR: i128 = 100_000_000_000_000_000_000_000_000_000;

pub open spec fn is_digit(c: char) -> bool {
    '0' <= c && c <= '9'
}

pub open spec fn digit_of(c: char) -> nat {
    (c as u32 - '0' as u32) as nat
}

pub open spec fn is_sign(c: char) -> bool {
    c == '+' || c == '-'
}

pub open spec fn all_digits(s: Seq<char>) -> bool {
    forall|i: int| 0 <= i < s.len() ==> is_digit(#[trigger] s[i])
}

/// The number that a string of digits stands for.
pub open spec fn digits_value(s: Seq<char>) -> nat
    decreases s.len(),
{
    if s.len() == 0 {
        0
    } else {
        digits_value(s.drop_last()) * 10 + digit_of(s.last())
    }
}

pub open spec fn pow10(n: nat) -> nat
    decreases n,
{
    if n == 0 {
        1
    } else {
        10 * pow10((n - 1) as nat)
    }
}

/// `n` zeros.
pub open spec fn zeros(n: nat) -> Seq<char> {
    Seq::new(n, |i: int| '0')
}

/// Where the first `a` or `b` of `s` stands; the length of `s` if it has
/// neither.
pub open spec fn first_of(s: Seq<char>, a: char, b: char) -> int
    decreases s.len(),
{
    if s.len() == 0 || s[0] == a || s[0] == b {
        0
    } else {
        1 + first_of(s.drop_first(), a, b)
    }
}

/// The length of the sign that `s` begins with: one or none.
pub open spec fn sign_len(s: Seq<char>) -> int {
    if s.len() > 0 && is_sign(s[0]) {
        1
    } else {
        0
    }
}

/// Whether `s` begins with a minus sign.
pub open spec fn is_negative(s: Seq<char>) -> bool {
    s.len() > 0 && s[0] == '-'
}

/// Where the first decimal point of `s` stands; the length of `s` if it has
/// none.
pub open spec fn point(s: Seq<char>) -> int {
    first_of(s, '.', '.')
}

/// Where the exponent mark of `s` stands, an `e` or `E`; the length of `s` if
/// it has none.
pub open spec fn mark(s: Seq<char>) -> int {
    first_of(s, 'e', 'E')
}

/// What stands between the sign and the exponent mark.
pub open spec fn mantissa(s: Seq<char>) -> Seq<char> {
    s.subrange(sign_len(s), mark(s))
}

/// What stands after the exponent mark, if there is one.
pub open spec fn exponent_text(s: Seq<char>) -> Option<Seq<char>> {
    if mark(s) < s.len() {
        Some(s.subrange(mark(s) + 1, s.len() as int))
    } else {
        None
    }
}

/// What stands before the first decimal point.
pub open spec fn whole_part(s: Seq<char>) -> Seq<char> {
    s.subrange(0, point(s))
}

/// What stands after the first decimal point.
pub open spec fn fraction_part(s: Seq<char>) -> Seq<char> {
    if point(s) < s.len() {
        s.subrange(point(s) + 1, s.len() as int)
    } else {
        Seq::empty()
    }
}

/// An exponent is an optional sign and at least one digit.
pub open spec fn exponent_ok(text: Option<Seq<char>>) -> bool {
    match text {
        Some(t) => t.len() > sign_len(t) && all_digits(t.skip(sign_len(t))),
        None => true,
    }
}

/// The exponent that a text stands for; zero where there is none.
pub open spec fn exponent_of(text: Option<Seq<char>>) -> int {
    match text {
        Some(t) => if is_negative(t) {
            -(digits_value(t.skip(sign_len(t))) as int)
        } else {
            digits_value(t.skip(sign_len(t))) as int
        },
        None => 0,
    }
}

/// Whether a text is a number: an optional sign; digits with at most one
/// point among them, before them or after them, and at least one digit; and
/// optionally an exponent mark with an exponent. Nothing else is: no blank,
/// no word such as `inf` or `NaN`.
pub open spec fn is_number(s: Seq<char>) -> bool {
    let m = mantissa(s);
    &&& all_digits(whole_part(m))
    &&& all_digits(fraction_part(m))
    &&& whole_part(m).len() + fraction_part(m).len() > 0
    &&& exponent_ok(exponent_text(s))
}

/// The digits of a number after its point was moved `places` to the right
/// (to the left where `places` is negative) and what then stands behind the
/// point was cut off.
pub open spec fn shifted_digits(whole: Seq<char>, fraction: Seq<char>, places: int) -> Seq<char> {
    let all = whole + fraction;
    let keep = whole.len() + places;
    if keep <= 0 {
        Seq::empty()
    } else if keep <= all.len() {
        all.take(keep)
    } else {
        all + zeros((keep - all.len()) as nat)
    }
}

/// The size of a number in millionths, cut off to a whole millionth: its
/// digits with the point moved six places and as many more as the exponent
/// says.
pub open spec fn number_micros(s: Seq<char>) -> nat {
    let m = mantissa(s);
    digits_value(
        shifted_digits(whole_part(m), fraction_part(m), exponent_of(exponent_text(s)) + 6),
    )
}

/// The value of a number in millionths, cut off to a whole millionth: below
/// zero where the number has a minus sign and is not a zero.
pub open spec fn number_value(s: Seq<char>) -> int {
    if is_negative(s) {
        -(number_micros(s) as int)
    } else {
        number_micros(s) as int
    }
}

/// The price that a text stands for, in millionths. A text that is no number
/// is a parse failure. Every number is a price, also one below zero and a
/// zero with a sign, as long as 64 bits hold its millionths; beyond that it
/// is out of range.
pub open spec fn decimal_micros(s: Seq<char>) -> Result<i64, DecodeError> {
    if !is_number(s) {
        Err(DecodeError::NumericParse)
    } else if i64::MIN <= number_value(s) <= i64::MAX {
        Ok(number_value(s) as i64)
    } else {
        Err(DecodeError::OutOfRange)
    }
}

/// `x`, or `cap + 1` where `x` is above `cap`.
pub open spec fn capped(x: nat, cap: nat) -> nat {
    if x <= cap {
        x
    } else {
        cap + 1
    }
}

proof fn lemma_first_of(s: Seq<char>, a: char, b: char)
    ensures
        0 <= first_of(s, a, b) <= s.len(),
        forall|j: int| 0 <= j < first_of(s, a, b) ==> s[j] != a && s[j] != b,
        first_of(s, a, b) < s.len() ==> s[first_of(s, a, b)] == a || s[first_of(s, a, b)] == b,
    decreases s.len(),
{
    if s.len() == 0 || s[0] == a || s[0] == b {
    } else {
        let rest = s.drop_first();
        lemma_first_of(rest, a, b);
        assert forall|j: int| 0 <= j < first_of(s, a, b) implies s[j] != a && s[j] != b by {
            if j > 0 {
                assert(s[j] == rest[j - 1]);
            }
        }
        if first_of(s, a, b) < s.len() {
            assert(s[first_of(s, a, b)] == rest[first_of(rest, a, b)]);
        }
    }
}

/// The first `a` or `b` stands at `d` if none stands before `d` and one
/// stands at `d`, or `d` is the end.
pub proof fn lemma_first_of_is(s: Seq<char>, a: char, b: char, d: int)
    requires
        0 <= d <= s.len(),
        forall|j: int| 0 <= j < d ==> s[j] != a && s[j] != b,
        d < s.len() ==> s[d] == a || s[d] == b,
    ensures
        first_of(s, a, b) == d,
{
    lemma_first_of(s, a, b);
    let p = first_of(s, a, b);
    if p < d {
        assert(s[p] == a || s[p] == b);
    } else if d < p {
        assert(s[d] == a || s[d] == b);
    }
}

/// Digits followed by `count` zeros stand for the number of the digits times
/// ten to the power of `count`.
proof fn lemma_zeros(digits: Seq<char>, count: nat)
    ensures
        digits_value(digits + zeros(count)) == digits_value(digits) * pow10(count),
    decreases count,
{
    let s = digits + zeros(count);
    let x = digits_value(digits);
    if count == 0 {
        assert(s =~= digits);
        assert(pow10(0) == 1);
        assert(x * 1 == x);
    } else {
        let less = (count - 1) as nat;
        lemma_zeros(digits, less);
        assert(s.len() == digits.len() + count);
        assert(s.drop_last() =~= digits + zeros(less));
        assert(s.last() == '0');
        assert(digit_of('0') == 0);
        assert(digits_value(s) == digits_value(s.drop_last()) * 10 + digit_of(s.last()));
        let q = pow10(less);
        assert(pow10(count) == 10 * q);
        assert(x * q * 10 == x * (10 * q)) by (nonlinear_arith);
    }
}

proof fn lemma_pow10_grows(a: nat, b: nat)
    requires
        a <= b,
    ensures
        1 <= pow10(a) <= pow10(b),
    decreases b,
{
    if b == 0 {
    } else if a == b {
        lemma_pow10_grows((b - 1) as nat, (b - 1) as nat);
    } else {
        lemma_pow10_grows(a, (b - 1) as nat);
    }
}

/// Whether the characters of `text` from `from` up to `to` are all digits.
fn digits_only(text: &str, from: usize, to: usize) -> (r: bool)
    requires
        from <= to <= text@.len(),
    ensures
        r == all_digits(text@.subrange(from as int, to as int)),
{
    let mut i: usize = from;
    while i < to
        invariant
            from <= i <= to,
            to <= text@.len(),
            all_digits(text@.subrange(from as int, i as int)),
        decreases to - i,
    {
        let c = text.get_char(i);
        if !('0' <= c && c <= '9') {
            assert(text@.subrange(from as int, to as int)[i - from] == c);
            return false;
        }
        assert forall|j: int| 0 <= j < i + 1 - from implies is_digit(
            #[trigger] text@.subrange(from as int, i as int + 1)[j],
        ) by {
            if j < i - from {
                assert(text@.subrange(from as int, i as int)[j] == text@[from + j]);
            }
        }
        i = i + 1;
    }
    true
}

/// Reads on from the digits `before`, whose number is `start`, through the
/// digits of `text` from `from` up to `to`: the number of them all, or
/// `cap + 1` where it is above `cap`.
fn accumulate(
    text: &str,
    from: usize,
    to: usize,
    start: u128,
    cap: u128,
    Ghost(before): Ghost<Seq<char>>,
) -> (r: u128)
    requires
        from <= to <= text@.len(),
        all_digits(text@.subrange(from as int, to as int)),
        cap <= MAX_EXPONENT,
        start == capped(digits_value(before), cap as nat),
    ensures
        r == capped(digits_value(before + text@.subrange(from as int, to as int)), cap as nat),
{
    let mut value: u128 = start;
    let mut i: usize = from;
    assert(before + text@.subrange(from as int, from as int) =~= before);
    while i < to
        invariant
            from <= i <= to,
            to <= text@.len(),
            all_digits(text@.subrange(from as int, to as int)),
            cap <= MAX_EXPONENT,
            value == capped(digits_value(before + text@.subrange(from as int, i as int)), cap as nat),
        decreases to - i,
    {
        let c = text.get_char(i);
        proof {
            let next = before + text@.subrange(from as int, i as int + 1);
            assert(next.drop_last() =~= before + text@.subrange(from as int, i as int));
            assert(next.last() == c);
            assert(text@.subrange(from as int, to as int)[i - from] == c);
            assert(is_digit(c));
        }
        let digit: u128 = (c as u32 - '0' as u32) as u128;
        if value <= cap {
            let grown: u128 = value * 10 + digit;
            value = if grown > cap {
                cap + 1
            } else {
                grown
            };
        }
        i = i + 1;
    }
    value
}

/// Ten to the power of `n`.
fn power_of_ten(n: u8) -> (r: u128)
    requires
        n <= 19,
    ensures
        r == pow10(n as nat),
        r <= 10_000_000_000_000_000_000,
{
    let mut r: u128 = 1;
    let mut i: u8 = 0;
    proof {
        lemma_pow10_grows(0, 19);
        reveal_with_fuel(pow10, 20);
        assert(pow10(19) == 10_000_000_000_000_000_000);
    }
    while i < n
        invariant
            i <= n <= 19,
            r == pow10(i as nat),
            pow10(19) == 10_000_000_000_000_000_000,
        decreases n - i,
    {
        proof {
            lemma_pow10_grows((i + 1) as nat, 19);
        }
        r = r * 10;
        i = i + 1;
    }
    proof {
        lemma_pow10_grows(n as nat, 19);
    }
    r
}

/// How far `moved` places stand for `places`: exactly, or, beyond `FAR`,
/// short of them in the same direction.
pub open spec fn moves_as(moved: int, places: int) -> bool {
    moved == places || (moved >= FAR && places >= moved) || (moved <= -FAR && places <= moved)
}

/// Reads the exponent that stands in `text` from `es` to the end, and says
/// how far the point moves to give millionths: six places and the exponent.
/// `None` where what stands there is no exponent.
fn read_exponent(text: &str, es: usize) -> (r: Option<i128>)
    requires
        es <= text@.len(),
    ensures
        r is Some <==> exponent_ok(Some(text@.subrange(es as int, text@.len() as int))),
        r matches Some(moved) ==> -2 * MAX_EXPONENT <= moved <= 2 * MAX_EXPONENT && moves_as(
            moved as int,
            exponent_of(Some(text@.subrange(es as int, text@.len() as int))) + 6,
        ),
{
    let n = text.unicode_len();
    let marked = es < n && (text.get_char(es) == '+' || text.get_char(es) == '-');
    let falling = es < n && text.get_char(es) == '-';
    let ed: usize = if marked {
        es + 1
    } else {
        es
    };
    let ghost tail = text@.subrange(es as int, n as int);
    assert(tail.skip(sign_len(tail)) =~= text@.subrange(ed as int, n as int));
    if ed >= n || !digits_only(text, ed, n) {
        return None;
    }
    let exponent = accumulate(text, ed, n, 0, MAX_EXPONENT, Ghost(Seq::empty()));
    assert(Seq::<char>::empty() + text@.subrange(ed as int, n as int) =~= text@.subrange(
        ed as int,
        n as int,
    ));
    if falling {
        Some(6 - (exponent as i128))
    } else {
        Some(6 + (exponent as i128))
    }
}

/// The number of the digits of a mantissa after the point was moved, or
/// `u64::MAX + 1` where it is above `u64::MAX`. The whole part stands in
/// `text` from `s0` up to `p`, the fraction from `frac_start` up to `m`.
/// `moved` says how far the point moves; beyond `FAR` places it may fall
/// short of `places`, in the same direction.
fn shifted_value(
    text: &str,
    s0: usize,
    p: usize,
    frac_start: usize,
    m: usize,
    moved: i128,
    Ghost(places): Ghost<int>,
) -> (r: u128)
    requires
        s0 <= p <= frac_start <= m <= text@.len(),
        all_digits(text@.subrange(s0 as int, p as int)),
        all_digits(text@.subrange(frac_start as int, m as int)),
        -2 * MAX_EXPONENT <= moved <= 2 * MAX_EXPONENT,
        moves_as(moved as int, places),
    ensures
        r == capped(
            digits_value(
                shifted_digits(
                    text@.subrange(s0 as int, p as int),
                    text@.subrange(frac_start as int, m as int),
                    places,
                ),
            ),
            u64::MAX as nat,
        ),
{
    let ghost whole = text@.subrange(s0 as int, p as int);
    let ghost fraction = text@.subrange(frac_start as int, m as int);
    let ghost shifted = shifted_digits(whole, fraction, places);
    let whole_len: usize = p - s0;
    let frac_len: usize = m - frac_start;
    let keep: i128 = whole_len as i128 + moved;
    if keep <= 0 {
        assert(shifted =~= Seq::<char>::empty());
        return 0;
    }
    let take_whole: usize = if keep < whole_len as i128 {
        keep as usize
    } else {
        whole_len
    };
    let rest: i128 = keep - whole_len as i128;
    let take_frac: usize = if rest <= 0 {
        0
    } else if rest < frac_len as i128 {
        rest as usize
    } else {
        frac_len
    };
    let ghost first = text@.subrange(s0 as int, s0 + take_whole);
    let ghost second = text@.subrange(frac_start as int, frac_start + take_frac);
    proof {
        assert forall|i: int| 0 <= i < first.len() implies is_digit(#[trigger] first[i]) by {
            assert(first[i] == whole[i]);
        }
        assert forall|i: int| 0 <= i < second.len() implies is_digit(#[trigger] second[i]) by {
            assert(second[i] == fraction[i]);
        }
        assert(Seq::<char>::empty() + first =~= first);
    }
    let cap: u128 = u64::MAX as u128;
    let head = accumulate(text, s0, s0 + take_whole, 0, cap, Ghost(Seq::empty()));
    let value = accumulate(text, frac_start, frac_start + take_frac, head, cap, Ghost(first));
    if rest <= frac_len as i128 {
        assert(shifted =~= first + second);
        return value;
    }
    let ghost all = whole + fraction;
    let ghost more = (whole.len() + places - all.len()) as nat;
    proof {
        assert(first + second =~= all);
        assert(shifted == all + zeros(more));
        lemma_zeros(all, more);
        lemma_pow10_grows(0, more);
        assert(digits_value(all) * pow10(more) >= digits_value(all)) by (nonlinear_arith)
            requires
                pow10(more) >= 1,
        ;
    }
    if value > cap {
        return cap + 1;
    }
    if value == 0 {
        assert(digits_value(all) * pow10(more) == 0) by (nonlinear_arith)
            requires
                digits_value(all) == 0,
        ;
        return 0;
    }
    let zeros_after: i128 = rest - frac_len as i128;
    if zeros_after >= 20 {
        proof {
            lemma_pow10_grows(20, more);
            reveal_with_fuel(pow10, 21);
            assert(pow10(20) == 100_000_000_000_000_000_000);
            assert(digits_value(all) * pow10(more) >= 100_000_000_000_000_000_000) by (nonlinear_arith)
                requires
                    digits_value(all) >= 1,
                    pow10(more) >= 100_000_000_000_000_000_000,
            ;
        }
        return cap + 1;
    }
    let scale = power_of_ten(zeros_after as u8);
    assert(value * scale <= 0xffff_ffff_ffff_ffff * 10_000_000_000_000_000_000) by (nonlinear_arith)
        requires
            value <= 0xffff_ffff_ffff_ffff,
            scale <= 10_000_000_000_000_000_000,
    ;
    let total: u128 = value * scale;
    if total > cap {
        cap + 1
    } else {
        total
    }
}

/// Finds the parts of the mantissa of `text`: where the sign ends, where the
/// whole part ends, where the fraction begins, and where it ends.
fn scan_mantissa(text: &str) -> (r: (usize, usize, usize, usize))
    ensures
        r.0 == sign_len(text@),
        r.3 == mark(text@),
        r.0 <= r.1 <= r.2 <= r.3 <= text@.len(),
        whole_part(mantissa(text@)) == text@.subrange(r.0 as int, r.1 as int),
        fraction_part(mantissa(text@)) == text@.subrange(r.2 as int, r.3 as int),
{
    let n = text.unicode_len();
    let signed = n > 0 && (text.get_char(0) == '+' || text.get_char(0) == '-');
    let s0: usize = if signed {
        1
    } else {
        0
    };
    let mut m: usize = s0;
    while m < n && text.get_char(m) != 'e' && text.get_char(m) != 'E'
        invariant
            s0 <= m <= n,
            n == text@.len(),
            forall|j: int| 0 <= j < m ==> text@[j] != 'e' && text@[j] != 'E',
        decreases n - m,
    {
        m = m + 1;
    }
    let mut p: usize = s0;
    while p < m && text.get_char(p) != '.'
        invariant
            s0 <= p <= m <= n,
            n == text@.len(),
            forall|j: int| s0 <= j < p ==> text@[j] != '.',
        decreases m - p,
    {
        p = p + 1;
    }
    let frac_start: usize = if p < m {
        p + 1
    } else {
        m
    };
    proof {
        let body = text@.subrange(s0 as int, m as int);
        lemma_first_of_is(text@, 'e', 'E', m as int);
        lemma_first_of_is(body, '.', '.', p - s0);
        assert(mantissa(text@) == body);
        assert(whole_part(body) =~= text@.subrange(s0 as int, p as int));
        assert(fraction_part(body) =~= text@.subrange(frac_start as int, m as int));
    }
    (s0, p, frac_start, m)
}

/// Reads a price from its text: the price in millionths, or why there is
/// none.
pub fn parse_decimal(text: &str) -> (r: Result<i64, DecodeError>)
    ensures
        r == decimal_micros(text@),
{
    let n = text.unicode_len();
    let (s0, p, frac_start, m) = scan_mantissa(text);
    if !digits_only(text, s0, p) || !digits_only(text, frac_start, m) || (p - s0) + (m
        - frac_start) == 0 {
        return Err(DecodeError::NumericParse);
    }
    let mut moved: i128 = 6;
    if m < n {
        assert(exponent_text(text@) == Some(text@.subrange(m + 1, n as int)));
        match read_exponent(text, m + 1) {
            Some(by) => {
                moved = by;
            },
            None => {
                return Err(DecodeError::NumericParse);
            },
        }
    }
    assert(is_number(text@));
    let negative = n > 0 && text.get_char(0) == '-';
    let ghost places = exponent_of(exponent_text(text@)) + 6;
    let size = shifted_value(text, s0, p, frac_start, m, moved, Ghost(places));
    if negative {
        if size > 9_223_372_036_854_775_808 {
            Err(DecodeError::OutOfRange)
        } else if size == 9_223_372_036_854_775_808 {
            Ok(i64::MIN)
        } else {
            Ok(-(size as i64))
        }
    } else {
        if size > 9_223_372_036_854_775_807 {
            Err(DecodeError::OutOfRange)
        } else {
            Ok(size as i64)
        }
    }
}

} // verus!
