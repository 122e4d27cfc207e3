//! Decimal rendering and the human-readable forms of durations and of the
//! billed flag.

use vstd::prelude::*;
use vstd::string::StringExecFns;

verus! {

/// The character of a decimal digit.
pub open spec fn digit_char(d: nat) -> char {
    if d == 0 { '0' }
    else if d == 1 { '1' }
    else if d == 2 { '2' }
    else if d == 3 { '3' }
    else if d == 4 { '4' }
    else if d == 5 { '5' }
    else if d == 6 { '6' }
    else if d == 7 { '7' }
    else if d == 8 { '8' }
    else { '9' }
}

/// The decimal digits of `n`, most significant first, without leading zeros.
pub open spec fn dec(n: nat) -> Seq<char>
    decreases n,
{
    if n < 10 {
        seq![digit_char(n)]
    } else {
        dec(n / 10).push(digit_char(n % 10))
    }
}

/// A whole number of minutes as text: "<N> minutes" below one hour, else
/// "<H> hours <M> minutes".
pub open spec fn mins_text(m: nat) -> Seq<char> {
    if m < 60 {
        dec(m) + " minutes"@
    } else {
        dec(m / 60) + " hours "@ + dec(m % 60) + " minutes"@
    }
}

/// How the billed flag reads in a report: "No" for `n`, "Yes" otherwise.
pub open spec fn billed_label(b: Seq<char>) -> Seq<char> {
    if b == seq!['n'] { "No"@ } else { "Yes"@ }
}

fn digit_str(d: u8) -> (r: &'static str)
    requires
        d < 10,
    ensures
        r@ == seq![digit_char(d as nat)],
{
    proof {
        reveal_strlit("0");
        reveal_strlit("1");
        reveal_strlit("2");
        reveal_strlit("3");
        reveal_strlit("4");
        reveal_strlit("5");
        reveal_strlit("6");
        reveal_strlit("7");
        reveal_strlit("8");
        reveal_strlit("9");
    }
    if d == 0 { "0" }
    else if d == 1 { "1" }
    else if d == 2 { "2" }
    else if d == 3 { "3" }
    else if d == 4 { "4" }
    else if d == 5 { "5" }
    else if d == 6 { "6" }
    else if d == 7 { "7" }
    else if d == 8 { "8" }
    else { "9" }
}

/// Appends the decimal digits of `n` to `s`.
pub fn push_decimal(s: &mut String, n: u128)
    ensures
        final(s)@ == old(s)@ + dec(n as nat),
    decreases n,
{
    if n >= 10 {
        push_decimal(s, n / 10);
    }
    let d = digit_str((n % 10) as u8);
    s.append(d);
    proof {
        if n >= 10 {
            assert(dec(n as nat) == dec((n / 10) as nat).push(digit_char((n % 10) as nat)));
            assert(final(s)@ =~= old(s)@ + dec(n as nat));
        } else {
            assert(n % 10 == n);
            assert(final(s)@ =~= old(s)@ + dec(n as nat));
        }
    }
}

/// The decimal digits of `n`.
pub fn decimal(n: u128) -> (r: String)
    ensures
        r@ == dec(n as nat),
{
    let mut s = String::new();
    push_decimal(&mut s, n);
    assert(s@ =~= dec(n as nat));
    s
}

/// A number of minutes as text: "45 minutes", "1 hours 0 minutes",
/// "2 hours 5 minutes".
pub fn display_mins(minutes: u128) -> (r: String)
    ensures
        r@ == mins_text(minutes as nat),
{
    let mut s = String::new();
    if minutes < 60 {
        push_decimal(&mut s, minutes);
        s.append(" minutes");
    } else {
        push_decimal(&mut s, minutes / 60);
        s.append(" hours ");
        push_decimal(&mut s, minutes % 60);
        s.append(" minutes");
    }
    assert(s@ =~= mins_text(minutes as nat));
    s
}

/// The billed flag as a report shows it: "No" for `n`, "Yes" for any other
/// value.
pub fn from_billed(s: String) -> (r: String)
    ensures
        r@ == billed_label(s@),
{
    let n = String::from_str("n");
    proof {
        reveal_strlit("n");
        assert("n"@ =~= seq!['n']);
    }
    if s == n {
        String::from_str("No")
    } else {
        String::from_str("Yes")
    }
}

} // verus!
