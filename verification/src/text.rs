//! Building the text of a report: decimal numbers and lists of them.

use vstd::prelude::*;
use vstd::string::StringExecFns;

verus! {

/// The text of one decimal digit.
pub open spec fn digit_text(d: int) -> Seq<char> {
    if d == 0 {
        "0"@
    } else if d == 1 {
        "1"@
    } else if d == 2 {
        "2"@
    } else if d == 3 {
        "3"@
    } else if d == 4 {
        "4"@
    } else if d == 5 {
        "5"@
    } else if d == 6 {
        "6"@
    } else if d == 7 {
        "7"@
    } else if d == 8 {
        "8"@
    } else {
        "9"@
    }
}

/// A number in decimal, without leading zeros.
pub open spec fn decimal(n: nat) -> Seq<char>
    decreases n,
{
    if n < 10 {
        digit_text(n as int)
    } else {
        decimal(n / 10) + digit_text((n % 10) as int)
    }
}

/// A number in decimal, filled with zeros to three digits.
pub open spec fn decimal3(n: nat) -> Seq<char> {
    if n < 10 {
        "00"@ + decimal(n)
    } else if n < 100 {
        "0"@ + decimal(n)
    } else {
        decimal(n)
    }
}

/// The first `n` of the numbers, each but the first after a comma and a
/// space.
pub open spec fn listed(numbers: Seq<u64>, n: int) -> Seq<char>
    decreases n,
{
    if n <= 0 {
        Seq::empty()
    } else if n == 1 {
        decimal(numbers[0] as nat)
    } else {
        listed(numbers, n - 1) + ", "@ + decimal(numbers[n - 1] as nat)
    }
}

/// The numbers between square brackets.
pub open spec fn bracketed(numbers: Seq<u64>) -> Seq<char> {
    "["@ + listed(numbers, numbers.len() as int) + "]"@
}

fn digit(d: u64) -> (s: &'static str)
    requires
        d < 10,
    ensures
        s@ == digit_text(d as int),
{
    if d == 0 {
        "0"
    } else if d == 1 {
        "1"
    } else if d == 2 {
        "2"
    } else if d == 3 {
        "3"
    } else if d == 4 {
        "4"
    } else if d == 5 {
        "5"
    } else if d == 6 {
        "6"
    } else if d == 7 {
        "7"
    } else if d == 8 {
        "8"
    } else {
        "9"
    }
}

/// Appends `n` in decimal.
pub fn push_decimal(out: &mut String, n: u64)
    ensures
        final(out)@ == old(out)@ + decimal(n as nat),
    decreases n,
{
    if n >= 10 {
        push_decimal(out, n / 10);
    }
    out.append(digit(n % 10));
    proof {
        if n >= 10 {
            assert(out@ =~= old(out)@ + (decimal((n / 10) as nat) + digit_text((n % 10) as int)));
        }
    }
}

/// Appends `n` in decimal, filled with zeros to three digits.
pub fn push_decimal3(out: &mut String, n: u64)
    ensures
        final(out)@ == old(out)@ + decimal3(n as nat),
{
    if n < 10 {
        out.append("00");
    } else if n < 100 {
        out.append("0");
    }
    push_decimal(out, n);
    proof {
        assert(out@ =~= old(out)@ + decimal3(n as nat));
    }
}

/// Appends the numbers between square brackets, with a comma and a space
/// between two of them.
pub fn push_bracketed(out: &mut String, numbers: &Vec<u64>)
    ensures
        final(out)@ == old(out)@ + bracketed(numbers@),
{
    out.append("[");
    let ghost start = out@;
    let mut i: usize = 0;
    while i < numbers.len()
        invariant
            0 <= i <= numbers@.len(),
            start == old(out)@ + "["@,
            out@ == start + listed(numbers@, i as int),
        decreases numbers@.len() - i,
    {
        if i > 0 {
            out.append(", ");
        }
        push_decimal(out, numbers[i]);
        proof {
            assert(out@ =~= start + listed(numbers@, i + 1));
        }
        i += 1;
    }
    out.append("]");
    proof {
        assert(out@ =~= old(out)@ + bracketed(numbers@));
    }
}

} // verus!
