//! Decimal digits: how many a number has, and which.

use vstd::prelude::*;

verus! {

/// The number of decimal digits of `n`; zero has one.
pub open spec fn decimal_width(n: nat) -> nat
    decreases n,
{
    if n < 10 {
        1
    } else {
        1 + decimal_width(n / 10)
    }
}

/// Ten to the power `k`.
pub open spec fn pow10(k: nat) -> nat
    decreases k,
{
    if k == 0 {
        1
    } else {
        10 * pow10((k - 1) as nat)
    }
}

/// The character of the digit `d`, for `d` below ten.
pub open spec fn digit_char(d: nat) -> char {
    if d == 0 {
        '0'
    } else if d == 1 {
        '1'
    } else if d == 2 {
        '2'
    } else if d == 3 {
        '3'
    } else if d == 4 {
        '4'
    } else if d == 5 {
        '5'
    } else if d == 6 {
        '6'
    } else if d == 7 {
        '7'
    } else if d == 8 {
        '8'
    } else {
        '9'
    }
}

/// The digit that a character shows; an arbitrary number for any other character.
pub open spec fn digit_value(c: char) -> nat {
    choose|d: nat| d < 10 && digit_char(d) == c
}

/// `n` written in base ten, most significant digit first.
pub open spec fn decimal(n: nat) -> Seq<char>
    decreases n,
{
    if n < 10 {
        seq![digit_char(n)]
    } else {
        decimal(n / 10).push(digit_char(n % 10))
    }
}

/// The number that a string of digits denotes in base ten.
pub open spec fn decimal_value(s: Seq<char>) -> nat
    decreases s.len(),
{
    if s.len() == 0 {
        0
    } else {
        10 * decimal_value(s.drop_last()) + digit_value(s.last())
    }
}

/// A digit's character shows that digit.
pub proof fn lemma_digit_round_trip(d: nat)
    requires
        d < 10,
    ensures
        digit_value(digit_char(d)) == d,
{
    let e = digit_value(digit_char(d));
    assert(d < 10 && digit_char(d) == digit_char(d));
    assert(e < 10 && digit_char(e) == digit_char(d));
}

/// The digit count is the length of the base-ten representation, which denotes the number
/// it was written from and, but for zero itself, does not begin with a zero.
pub proof fn lemma_decimal_width_is_length(n: nat)
    ensures
        decimal(n).len() == decimal_width(n),
        decimal_value(decimal(n)) == n,
        forall|i: int| 0 <= i < decimal(n).len() ==> digit_value(#[trigger] decimal(n)[i]) < 10
            && digit_char(digit_value(decimal(n)[i])) == decimal(n)[i],
        n > 0 ==> decimal(n)[0] != '0',
        decimal_width(0) == 1,
    decreases n,
{
    if n < 10 {
        lemma_digit_round_trip(n);
        let s = decimal(n);
        assert(s.drop_last().len() == 0);
        assert(decimal_value(s.drop_last()) == 0);
        assert(s.last() == digit_char(n));
    } else {
        lemma_decimal_width_is_length(n / 10);
        lemma_digit_round_trip(n % 10);
        let head = decimal(n / 10);
        let s = decimal(n);
        assert(s.drop_last() =~= head);
        assert(s.last() == digit_char(n % 10));
        assert(s[0] == head[0]);
        assert forall|i: int| 0 <= i < s.len() implies digit_value(#[trigger] s[i]) < 10
            && digit_char(digit_value(s[i])) == s[i] by {
            if i < head.len() {
                assert(s[i] == head[i]);
            }
        }
    }
}

/// A number of `w` digits lies from ten to the `w - 1` up to but not including ten to the
/// `w`; zero, which has one digit, lies below that range.
pub proof fn lemma_decimal_width_bounds(n: nat)
    ensures
        n < pow10(decimal_width(n)),
        n >= 1 ==> pow10((decimal_width(n) - 1) as nat) <= n,
        decimal_width(n) >= 1,
        decimal_width(0) == 1,
    decreases n,
{
    reveal_with_fuel(pow10, 2);
    if n >= 10 {
        lemma_decimal_width_bounds(n / 10);
        if n / 10 < 10 {
            assert(decimal_width(n / 10) == 1);
            assert(decimal_width(n) == 2);
            assert(pow10(2) == 100);
            assert(pow10(1) == 10);
        }
    }
}

/// A larger number has at least as many digits.
pub proof fn lemma_decimal_width_monotonic(a: nat, b: nat)
    requires
        a <= b,
    ensures
        decimal_width(a) <= decimal_width(b),
    decreases b,
{
    if a >= 10 {
        lemma_decimal_width_monotonic(a / 10, b / 10);
    }
}

/// A 32-bit number has at most ten digits.
pub proof fn lemma_decimal_width_u32(n: nat)
    requires
        n <= u32::MAX,
    ensures
        1 <= decimal_width(n) <= 10,
{
    lemma_decimal_width_monotonic(n, 4_294_967_295);
    reveal_with_fuel(decimal_width, 11);
    assert(decimal_width(4_294_967_295) == 10);
}

/// Counts the decimal digits of `n`.
pub fn digit_count(n: u32) -> (w: u32)
    ensures
        w == decimal_width(n as nat),
        1 <= w <= 10,
{
    proof {
        lemma_decimal_width_u32(n as nat);
    }
    let mut rest: u32 = n;
    let mut w: u32 = 1;
    while rest >= 10
        invariant
            1 <= w,
            w + decimal_width(rest as nat) == decimal_width(n as nat) + 1,
            decimal_width(n as nat) <= 10,
        decreases rest,
    {
        rest = rest / 10;
        w = w + 1;
    }
    w
}

/// The character of a single digit.
fn digit_to_char(d: u32) -> (c: char)
    requires
        d < 10,
    ensures
        c == digit_char(d as nat),
{
    if d == 0 {
        '0'
    } else if d == 1 {
        '1'
    } else if d == 2 {
        '2'
    } else if d == 3 {
        '3'
    } else if d == 4 {
        '4'
    } else if d == 5 {
        '5'
    } else if d == 6 {
        '6'
    } else if d == 7 {
        '7'
    } else if d == 8 {
        '8'
    } else {
        '9'
    }
}

/// Writes `n` in base ten, most significant digit first.
pub fn digits(n: u32) -> (out: Vec<char>)
    ensures
        out@ == decimal(n as nat),
        out.len() == decimal_width(n as nat),
        1 <= out.len() <= 10,
{
    proof {
        lemma_decimal_width_is_length(n as nat);
        lemma_decimal_width_u32(n as nat);
    }
    // The digits from the least significant one up.
    let mut low: Vec<char> = Vec::new();
    let mut rest: u32 = n;
    while rest >= 10
        invariant
            decimal(n as nat) =~= decimal(rest as nat) + low@.reverse(),
        decreases rest,
    {
        let ghost before = low@;
        low.push(digit_to_char(rest % 10));
        proof {
            let d = digit_char((rest % 10) as nat);
            assert(low@.reverse() =~= seq![d] + before.reverse());
            assert(decimal(rest as nat) =~= decimal((rest / 10) as nat) + seq![d]);
        }
        rest = rest / 10;
    }
    let mut out: Vec<char> = Vec::new();
    out.push(digit_to_char(rest));
    let mut i: usize = low.len();
    while i > 0
        invariant
            i <= low.len(),
            out@ =~= decimal(rest as nat) + low@.reverse().take(low.len() - i),
            rest < 10,
        decreases i,
    {
        i = i - 1;
        let ghost before = out@;
        out.push(low[i]);
        proof {
            let r = low@.reverse();
            let k = low.len() - i - 1;
            assert(r[k] == low@[i as int]);
            assert(r.take(k + 1) =~= r.take(k).push(r[k]));
        }
    }
    proof {
        assert(low@.reverse().take(low.len() as int) =~= low@.reverse());
    }
    out
}

} // verus!
