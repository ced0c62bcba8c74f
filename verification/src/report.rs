//! The text of a trade record, as it is appended to the trade log.

use vstd::prelude::*;
use vstd::string::{StrSliceExecFns, StringExecFns};
use crate::arbitrage::{TradeRecord, Venue};
use crate::decode::DecodeError;
use crate::price::{
    all_digits, decimal_micros, digit_of, digits_value, fraction_part, is_digit, is_negative,
    is_number, is_sign, lemma_first_of_is, mantissa, number_micros, pow10, shifted_digits,
    sign_len, whole_part,
};

verus! {

/// The digit `d`, as text.
pub open spec fn digit_text(d: nat) -> Seq<char> {
    "0123456789"@.subrange(d as int, d as int + 1)
}

/// The decimal digits of `n`, without leading zeros.
pub open spec fn digits_of(n: nat) -> Seq<char>
    decreases n,
{
    if n < 10 {
        digit_text(n)
    } else {
        digits_of(n / 10) + digit_text(n % 10)
    }
}

/// The last `width` decimal digits of `n`, with leading zeros.
pub open spec fn fixed_digits(n: nat, width: nat) -> Seq<char>
    decreases width,
{
    if width == 0 {
        Seq::empty()
    } else {
        fixed_digits(n / 10, (width - 1) as nat) + digit_text(n % 10)
    }
}

/// A count of millionths as decimal text: a minus sign where it is negative,
/// the whole part, a point, and six digits.
pub open spec fn money_text(micros: int) -> Seq<char> {
    let size = if micros < 0 {
        -micros
    } else {
        micros
    };
    let sign = if micros < 0 {
        "-"@
    } else {
        Seq::<char>::empty()
    };
    sign + digits_of((size / 1_000_000) as nat) + "."@ + fixed_digits((size % 1_000_000) as nat, 6)
}

pub open spec fn venue_text(venue: Venue) -> Seq<char> {
    match venue {
        Venue::DyDx => "DyDx"@,
        Venue::Aevo => "Aevo"@,
    }
}

/// The text of a trade record: the purchase, the sale, the profit, and the
/// totals after the trade, one to a line.
pub open spec fn record_text(record: TradeRecord) -> Seq<char> {
    "Bought "@ + money_text(record.amount as int) + " BTC from "@ + venue_text(record.buy_venue)
        + " at price "@ + money_text(record.buy_price as int) + ", with cost: "@ + money_text(
        record.buy_cost as int,
    ) + ".\nSold "@ + money_text(record.amount as int) + " BTC from "@ + venue_text(
        record.sell_venue,
    ) + " at price "@ + money_text(record.sell_price as int) + ", with cost: "@ + money_text(
        record.sell_cost as int,
    ) + ".\nProfit: "@ + money_text(record.profit as int) + "\nTotal profit: "@ + money_text(
        record.total_profit as int,
    ) + "\nDyDx Balance: "@ + money_text(record.dydx_balance as int) + "\nAevo Balance: "@
        + money_text(record.aevo_balance as int) + "\n"@
}

fn push_digit(out: &mut String, d: u128)
    requires
        d < 10,
    ensures
        final(out)@ == old(out)@ + digit_text(d as nat),
{
    let digits = "0123456789";
    proof {
        reveal_strlit("0123456789");
    }
    let at: usize = d as usize;
    out.append(digits.substring_ascii(at, at + 1));
}

fn push_digits(out: &mut String, n: u128)
    ensures
        final(out)@ == old(out)@ + digits_of(n as nat),
    decreases n,
{
    if n >= 10 {
        push_digits(out, n / 10);
        push_digit(out, n % 10);
        assert(out@ =~= old(out)@ + digits_of(n as nat));
    } else {
        push_digit(out, n);
    }
}

fn push_fixed(out: &mut String, n: u128, width: u8)
    ensures
        final(out)@ == old(out)@ + fixed_digits(n as nat, width as nat),
    decreases width,
{
    if width > 0 {
        push_fixed(out, n / 10, width - 1);
        push_digit(out, n % 10);
        assert(out@ =~= old(out)@ + fixed_digits(n as nat, width as nat));
    } else {
        assert(out@ =~= old(out)@ + fixed_digits(n as nat, width as nat));
    }
}

fn push_money(out: &mut String, negative: bool, size: u128)
    requires
        negative ==> size > 0,
    ensures
        final(out)@ == old(out)@ + money_text(
            if negative {
                -(size as int)
            } else {
                size as int
            },
        ),
{
    if negative {
        out.append("-");
    }
    push_digits(out, size / 1_000_000);
    out.append(".");
    push_fixed(out, size % 1_000_000, 6);
    assert(out@ =~= old(out)@ + money_text(
        if negative {
            -(size as int)
        } else {
            size as int
        },
    ));
}

fn push_signed(out: &mut String, micros: i128)
    ensures
        final(out)@ == old(out)@ + money_text(micros as int),
{
    if micros < 0 {
        let size: u128 = ((-(micros + 1)) as u128) + 1;
        push_money(out, true, size);
    } else {
        push_money(out, false, micros as u128);
    }
}

fn push_venue(out: &mut String, venue: Venue)
    ensures
        final(out)@ == old(out)@ + venue_text(venue),
{
    match venue {
        Venue::DyDx => out.append("DyDx"),
        Venue::Aevo => out.append("Aevo"),
    }
}

/// A count of millionths as decimal text.
pub fn money(micros: i128) -> (r: String)
    ensures
        r@ == money_text(micros as int),
{
    let mut out = String::new();
    push_signed(&mut out, micros);
    assert(out@ =~= money_text(micros as int));
    out
}

impl TradeRecord {
    /// The text of the record for the trade log.
    pub fn describe(&self) -> (r: String)
        ensures
            r@ == record_text(*self),
    {
        let mut out = String::new();
        out.append("Bought ");
        assert(out@ =~= "Bought "@);
        push_money(&mut out, false, self.amount);
        out.append(" BTC from ");
        push_venue(&mut out, self.buy_venue);
        out.append(" at price ");
        push_money(&mut out, false, self.buy_price as u128);
        out.append(", with cost: ");
        push_signed(&mut out, self.buy_cost);
        out.append(".\nSold ");
        push_money(&mut out, false, self.amount);
        out.append(" BTC from ");
        push_venue(&mut out, self.sell_venue);
        out.append(" at price ");
        push_money(&mut out, false, self.sell_price as u128);
        out.append(", with cost: ");
        push_signed(&mut out, self.sell_cost);
        out.append(".\nProfit: ");
        push_signed(&mut out, self.profit);
        out.append("\nTotal profit: ");
        push_signed(&mut out, self.total_profit);
        out.append("\nDyDx Balance: ");
        push_signed(&mut out, self.dydx_balance);
        out.append("\nAevo Balance: ");
        push_signed(&mut out, self.aevo_balance);
        out.append("\n");
        out
    }
}

proof fn lemma_digit_text(d: nat)
    requires
        d < 10,
    ensures
        digit_text(d).len() == 1,
        is_digit(digit_text(d)[0]),
        digit_of(digit_text(d)[0]) == d,
{
    reveal_strlit("0123456789");
}

proof fn lemma_digits_of(n: nat)
    ensures
        digits_of(n).len() >= 1,
        all_digits(digits_of(n)),
        digits_value(digits_of(n)) == n,
    decreases n,
{
    let s = digits_of(n);
    if n < 10 {
        lemma_digit_text(n);
        assert(s.drop_last() =~= Seq::<char>::empty());
        assert(digits_value(s.drop_last()) == 0);
    } else {
        lemma_digits_of(n / 10);
        lemma_digit_text(n % 10);
        assert(s.drop_last() =~= digits_of(n / 10));
        assert(s.last() == digit_text(n % 10)[0]);
    }
}

proof fn lemma_fixed_digits(n: nat, width: nat)
    ensures
        fixed_digits(n, width).len() == width,
        all_digits(fixed_digits(n, width)),
        digits_value(fixed_digits(n, width)) == n % pow10(width),
        pow10(width) > 0,
    decreases width,
{
    let s = fixed_digits(n, width);
    if width > 0 {
        let rest = (width - 1) as nat;
        lemma_fixed_digits(n / 10, rest);
        lemma_digit_text(n % 10);
        assert(s.drop_last() =~= fixed_digits(n / 10, rest));
        assert(s.last() == digit_text(n % 10)[0]);
        vstd::arithmetic::div_mod::lemma_breakdown(n as int, 10, pow10(rest) as int);
    }
}

proof fn lemma_concat(a: Seq<char>, b: Seq<char>)
    ensures
        digits_value(a + b) == digits_value(a) * pow10(b.len()) + digits_value(b),
    decreases b.len(),
{
    let s = a + b;
    let x = digits_value(a);
    if b.len() == 0 {
        assert(s =~= a);
        assert(pow10(0) == 1);
        assert(x * 1 == x);
    } else {
        lemma_concat(a, b.drop_last());
        assert(s.len() == a.len() + b.len());
        assert(s.drop_last() =~= a + b.drop_last());
        assert(s.last() == b.last());
        assert(digits_value(s) == digits_value(s.drop_last()) * 10 + digit_of(s.last()));
        let p = pow10((b.len() - 1) as nat);
        let y = digits_value(b.drop_last());
        assert(pow10(b.len()) == 10 * p);
        assert(digits_value(b) == y * 10 + digit_of(b.last()));
        assert((x * p + y) * 10 == x * (10 * p) + y * 10) by (nonlinear_arith);
    }
}

/// A sign, or none, before a whole part, a point and six digits is a number,
/// and stands for the whole part and the six digits as millionths.
proof fn lemma_written_number(sign: Seq<char>, whole: nat, part: nat)
    requires
        part < 1_000_000,
        sign.len() == 0 || (sign.len() == 1 && is_sign(sign[0])),
    ensures
        is_number(sign + digits_of(whole) + "."@ + fixed_digits(part, 6)),
        number_micros(sign + digits_of(whole) + "."@ + fixed_digits(part, 6)) == whole * 1_000_000
            + part,
        is_negative(sign + digits_of(whole) + "."@ + fixed_digits(part, 6)) == (sign.len() == 1
            && sign[0] == '-'),
{
    let left = digits_of(whole);
    let right = fixed_digits(part, 6);
    let body = left + "."@ + right;
    let text = sign + left + "."@ + right;
    let s0 = sign.len() as int;
    reveal_strlit(".");
    lemma_digits_of(whole);
    lemma_fixed_digits(part, 6);
    reveal_with_fuel(pow10, 8);
    assert(text =~= sign + body);
    assert(text[s0] == left[0]);
    assert(is_digit(left[0]));
    assert forall|j: int| 0 <= j < body.len() implies body[j] != 'e' && body[j] != 'E' by {
        if j < left.len() {
            assert(body[j] == left[j]);
            assert(is_digit(left[j]));
        } else if j > left.len() {
            assert(body[j] == right[j - left.len() - 1]);
            assert(is_digit(right[j - left.len() - 1]));
        }
    }
    assert forall|j: int| 0 <= j < text.len() implies text[j] != 'e' && text[j] != 'E' by {
        if j >= s0 {
            assert(text[j] == body[j - s0]);
        } else {
            assert(text[j] == sign[j]);
        }
    }
    lemma_first_of_is(text, 'e', 'E', text.len() as int);
    assert(sign_len(text) == s0);
    assert(mantissa(text) =~= body);
    assert forall|j: int| 0 <= j < left.len() implies body[j] != '.' by {
        assert(body[j] == left[j]);
        assert(is_digit(left[j]));
    }
    assert(body[left.len() as int] == '.');
    lemma_first_of_is(body, '.', '.', left.len() as int);
    assert(whole_part(body) =~= left);
    assert(fraction_part(body) =~= right);
    assert(shifted_digits(left, right, 6) =~= left + right);
    lemma_concat(left, right);
    assert(pow10(6) == 1_000_000);
    assert(digits_value(left + right) == whole * 1_000_000 + part);
}

/// What the log writes, the decoders read: the text of a price, below zero
/// or not, stands for that price.
pub proof fn law_written_price_reads_back(price: i64)
    ensures
        decimal_micros(money_text(price as int)) == Ok::<i64, DecodeError>(price),
{
    let size = if price < 0 {
        -(price as int)
    } else {
        price as int
    };
    let sign = if price < 0 {
        "-"@
    } else {
        Seq::<char>::empty()
    };
    reveal_strlit("-");
    lemma_written_number(sign, (size / 1_000_000) as nat, (size % 1_000_000) as nat);
}

} // verus!
