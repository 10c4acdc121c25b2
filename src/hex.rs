use vstd::prelude::*;
use vstd::string::StringExecFns;

verus! {

/// The upper-case hexadecimal digit of `d`, for `d < 16`.
pub open spec fn hex_digit(d: nat) -> char {
    if d < 10 {
        ('0' as nat + d) as char
    } else {
        ('A' as nat + (d - 10)) as char
    }
}

/// The digits of `n` in upper-case hexadecimal, most significant first,
/// without leading zeros (`0` is written `0`).
pub open spec fn hex_digits(n: nat) -> Seq<char>
    decreases n,
{
    if n < 16 {
        seq![hex_digit(n)]
    } else {
        hex_digits(n / 16).push(hex_digit(n % 16))
    }
}

/// The one-character string of the digit `d`.
fn digit_str(d: u64) -> (r: &'static str)
    requires
        d < 16,
    ensures
        r@ == seq![hex_digit(d as nat)],
{
    proof {
        reveal_strlit("0");
        reveal_strlit("1");
        reveal_strlit("2");
        reveal_strlit("3");
        reveal_strlit("4");
        reveal_strlit("5");
        reveal_strlit("6");
        reveal_strlit("7");
        reveal_strlit("8");
        reveal_strlit("9");
        reveal_strlit("A");
        reveal_strlit("B");
        reveal_strlit("C");
        reveal_strlit("D");
        reveal_strlit("E");
        reveal_strlit("F");
    }
    match d {
        0 => "0",
        1 => "1",
        2 => "2",
        3 => "3",
        4 => "4",
        5 => "5",
        6 => "6",
        7 => "7",
        8 => "8",
        9 => "9",
        10 => "A",
        11 => "B",
        12 => "C",
        13 => "D",
        14 => "E",
        _ => "F",
    }
}

/// `n` written in upper-case hexadecimal.
pub fn upper_hex(n: u64) -> (r: String)
    ensures
        r@ == hex_digits(n as nat),
{
    let mut acc = digit_str(n % 16).to_owned();
    let mut m = n / 16;
    proof {
        if n >= 16 {
            assert(hex_digits(n as nat) =~= hex_digits(m as nat) + acc@);
        }
    }
    while m > 0
        invariant
            m == 0 ==> acc@ == hex_digits(n as nat),
            m > 0 ==> hex_digits(n as nat) == hex_digits(m as nat) + acc@,
        decreases m,
    {
        let ghost prev = acc@;
        let d = digit_str(m % 16);
        acc = d.to_owned().concat(acc.as_str());
        proof {
            if m >= 16 {
                assert(hex_digits(m as nat) + prev =~= hex_digits((m / 16) as nat) + acc@);
            } else {
                assert(hex_digits(m as nat) + prev =~= acc@);
            }
        }
        m = m / 16;
    }
    acc
}

} // verus!
