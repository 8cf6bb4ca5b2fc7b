//! Numbers as text.

use vstd::prelude::*;
use vstd::string::StringExecFns;

verus! {

/// The character of a decimal digit.
pub open spec fn digit(d: int) -> char {
    if d == 0 {
        '0'
    } else if d == 1 {
        '1'
    } else if d == 2 {
        '2'
    } else if d == 3 {
        '3'
    } else if d == 4 {
        '4'
    } else if d == 5 {
        '5'
    } else if d == 6 {
        '6'
    } else if d == 7 {
        '7'
    } else if d == 8 {
        '8'
    } else {
        '9'
    }
}

/// A number in decimal, without leading zeros.
pub open spec fn decimal(n: int) -> Seq<char>
    decreases n,
{
    if n < 10 {
        seq![digit(n)]
    } else {
        decimal(n / 10) + seq![digit(n % 10)]
    }
}

fn append_digit(out: &mut String, d: u64)
    requires
        d < 10,
    ensures
        final(out)@ == old(out)@ + seq![digit(d as int)],
{
    proof {
        reveal_strlit("0");
        reveal_strlit("1");
        reveal_strlit("2");
        reveal_strlit("3");
        reveal_strlit("4");
        reveal_strlit("5");
        reveal_strlit("6");
        reveal_strlit("7");
        reveal_strlit("8");
        reveal_strlit("9");
    }
    let text: &str = match d {
        0 => "0",
        1 => "1",
        2 => "2",
        3 => "3",
        4 => "4",
        5 => "5",
        6 => "6",
        7 => "7",
        8 => "8",
        _ => "9",
    };
    assert(text@ =~= seq![digit(d as int)]);
    out.append(text);
}

/// Writes a number in decimal behind `out`.
pub fn append_decimal(out: &mut String, n: u64)
    ensures
        final(out)@ == old(out)@ + decimal(n as int),
    decreases n,
{
    if n < 10 {
        append_digit(out, n);
    } else {
        append_decimal(out, n / 10);
        append_digit(out, n % 10);
        assert(out@ =~= old(out)@ + decimal(n as int));
    }
}

/// A number in decimal, with a minus sign if it is negative.
pub open spec fn signed(n: int) -> Seq<char> {
    if n < 0 {
        "-"@ + decimal(-n)
    } else {
        decimal(n)
    }
}

/// Writes a number in decimal behind `out`, with a minus sign if it is negative.
pub fn append_signed(out: &mut String, n: i32)
    ensures
        final(out)@ == old(out)@ + signed(n as int),
{
    if n < 0 {
        out.append("-");
        let magnitude: u64 = (-(n as i64)) as u64;
        append_decimal(out, magnitude);
        assert(out@ =~= old(out)@ + signed(n as int));
    } else {
        append_decimal(out, n as u64);
    }
}

/// The number that a run of decimal digits stands for.
pub open spec fn value(digits: Seq<char>) -> int
    decreases digits.len(),
{
    if digits.len() == 0 {
        0
    } else {
        10 * value(digits.drop_last()) + (digits.last() as int - '0' as int)
    }
}

/// A number is read back from its decimal digits. There are nothing but digits, and no leading zero
/// but that of zero itself.
pub proof fn decimals_are_read_back(n: int)
    requires
        0 <= n,
    ensures
        value(decimal(n)) == n,
        decimal(n).len() > 0,
        forall|i: int| 0 <= i < decimal(n).len() ==> '0' <= #[trigger] decimal(n)[i] <= '9',
        decimal(n)[0] == '0' ==> n == 0,
    decreases n,
{
    if n < 10 {
        let digits = seq![digit(n)];
        assert(digits.drop_last() =~= Seq::<char>::empty());
        assert(value(digits.drop_last()) == 0);
    } else {
        decimals_are_read_back(n / 10);
        assert(decimal(n).drop_last() =~= decimal(n / 10));
        assert(decimal(n)[0] == decimal(n / 10)[0]);
    }
}

/// A signed number has a minus sign exactly if it is negative, and is read back from the digits.
pub proof fn signed_numbers_are_read_back(n: int)
    ensures
        signed(n).len() > 0,
        n < 0 <==> signed(n)[0] == '-',
        n < 0 ==> value(signed(n).drop_first()) == -n,
        n >= 0 ==> value(signed(n)) == n,
{
    reveal_strlit("-");
    if n < 0 {
        decimals_are_read_back(-n);
        assert(signed(n).drop_first() =~= decimal(-n));
    } else {
        decimals_are_read_back(n);
    }
}

} // verus!
