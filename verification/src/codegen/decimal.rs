use vstd::prelude::*;

verus! {

/// The character that writes a digit.
pub open spec fn spec_digit_char(d: int) -> char
    recommends
        0 <= d < 10,
{
    if d == 0 {
        '0'
    } else if d == 1 {
        '1'
    } else if d == 2 {
        '2'
    } else if d == 3 {
        '3'
    } else if d == 4 {
        '4'
    } else if d == 5 {
        '5'
    } else if d == 6 {
        '6'
    } else if d == 7 {
        '7'
    } else if d == 8 {
        '8'
    } else {
        '9'
    }
}

/// The decimal digits of a number that is not negative, the first digit first, without
/// leading zeros.
pub open spec fn spec_digits(n: nat) -> Seq<char>
    decreases n,
{
    if n < 10 {
        seq![spec_digit_char(n as int)]
    } else {
        spec_digits(n / 10).push(spec_digit_char((n % 10) as int))
    }
}

/// The decimal text of a whole number: a minus sign where it is negative, then its digits.
pub open spec fn spec_decimal(value: int) -> Seq<char> {
    if value < 0 {
        seq!['-'] + spec_digits((-value) as nat)
    } else {
        spec_digits(value as nat)
    }
}

fn digit_str(d: u8) -> (text: &'static str)
    requires
        d < 10,
    ensures
        text@ == seq![spec_digit_char(d as int)],
{
    proof {
        reveal_strlit("0");
        reveal_strlit("1");
        reveal_strlit("2");
        reveal_strlit("3");
        reveal_strlit("4");
        reveal_strlit("5");
        reveal_strlit("6");
        reveal_strlit("7");
        reveal_strlit("8");
        reveal_strlit("9");
    }
    let text = match d {
        0 => "0",
        1 => "1",
        2 => "2",
        3 => "3",
        4 => "4",
        5 => "5",
        6 => "6",
        7 => "7",
        8 => "8",
        _ => "9",
    };
    assert(text@ =~= seq![spec_digit_char(d as int)]);
    text
}

/// Appends the digits of `n` to `out`.
fn push_digits(out: &mut String, n: u64)
    ensures
        final(out)@ == old(out)@ + spec_digits(n as nat),
    decreases n,
{
    if n >= 10 {
        push_digits(out, n / 10);
    }
    let ghost before = out@;
    out.append(digit_str((n % 10) as u8));
    proof {
        if n >= 10 {
            assert(out@ =~= old(out)@ + spec_digits(n as nat));
        } else {
            assert(out@ =~= old(out)@ + spec_digits(n as nat));
        }
    }
}

/// Writes a whole number in decimal.
pub fn decimal(value: i64) -> (text: String)
    ensures
        text@ == spec_decimal(value as int),
{
    let mut text = String::new();
    if value < 0 {
        proof {
            reveal_strlit("-");
        }
        text.append("-");
        assert(text@ =~= seq!['-']);
        let magnitude: u64 = ((-(value + 1)) as u64) + 1;
        push_digits(&mut text, magnitude);
    } else {
        push_digits(&mut text, value as u64);
        assert(text@ =~= spec_decimal(value as int));
    }
    text
}

} // verus!
