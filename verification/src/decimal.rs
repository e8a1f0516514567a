use vstd::prelude::*;

verus! {

/// The character for a single decimal digit.
pub open spec fn digit_char(d: nat) -> char
    recommends
        d < 10,
{
    if d == 0 {
        '0'
    } else if d == 1 {
        '1'
    } else if d == 2 {
        '2'
    } else if d == 3 {
        '3'
    } else if d == 4 {
        '4'
    } else if d == 5 {
        '5'
    } else if d == 6 {
        '6'
    } else if d == 7 {
        '7'
    } else if d == 8 {
        '8'
    } else {
        '9'
    }
}

/// The decimal rendering of `n`, most significant digit first,
/// with no leading zeros (and `0` rendered as the single digit `0`).
pub open spec fn decimal_digits(n: nat) -> Seq<char>
    decreases n,
{
    if n < 10 {
        seq![digit_char(n)]
    } else {
        decimal_digits(n / 10).push(digit_char(n % 10))
    }
}

pub proof fn lemma_decimal_digits_len(n: nat)
    ensures
        n < 10 ==> decimal_digits(n).len() == 1,
        n >= 10 ==> decimal_digits(n).len() >= 2,
    decreases n,
{
    if n >= 10 {
        lemma_decimal_digits_len(n / 10);
    }
}

proof fn lemma_digit_char_injective(a: nat, b: nat)
    requires
        a < 10,
        b < 10,
        a != b,
    ensures
        digit_char(a) != digit_char(b),
{
}

/// Distinct numbers have distinct decimal renderings.
pub proof fn lemma_decimal_digits_injective(m: nat, n: nat)
    requires
        m != n,
    ensures
        decimal_digits(m) != decimal_digits(n),
    decreases m + n,
{
    lemma_decimal_digits_len(m);
    lemma_decimal_digits_len(n);
    if m < 10 && n < 10 {
        lemma_digit_char_injective(m, n);
        assert(decimal_digits(m)[0] != decimal_digits(n)[0]);
    } else if m >= 10 && n >= 10 {
        let dm = decimal_digits(m);
        let dn = decimal_digits(n);
        if m % 10 != n % 10 {
            lemma_digit_char_injective(m % 10, n % 10);
            assert(dm.last() != dn.last());
            if dm == dn {
                assert(dm.last() == dn.last());
            }
        } else {
            lemma_decimal_digits_injective(m / 10, n / 10);
            if dm == dn {
                assert(decimal_digits(m / 10) =~= dm.drop_last());
                assert(decimal_digits(n / 10) =~= dn.drop_last());
            }
        }
    }
}

/// One decimal digit as a string slice.
fn digit_str(d: usize) -> (r: &'static str)
    requires
        d < 10,
    ensures
        r@ =~= seq![digit_char(d as nat)],
{
    proof {
        reveal_strlit("0");
        reveal_strlit("1");
        reveal_strlit("2");
        reveal_strlit("3");
        reveal_strlit("4");
        reveal_strlit("5");
        reveal_strlit("6");
        reveal_strlit("7");
        reveal_strlit("8");
        reveal_strlit("9");
    }
    if d == 0 {
        "0"
    } else if d == 1 {
        "1"
    } else if d == 2 {
        "2"
    } else if d == 3 {
        "3"
    } else if d == 4 {
        "4"
    } else if d == 5 {
        "5"
    } else if d == 6 {
        "6"
    } else if d == 7 {
        "7"
    } else if d == 8 {
        "8"
    } else {
        "9"
    }
}

/// Renders `n` in decimal, as `format!("{n}")` would.
pub fn usize_to_string(n: usize) -> (r: String)
    ensures
        r@ == decimal_digits(n as nat),
    decreases n,
{
    if n < 10 {
        let r = digit_str(n).to_owned();
        assert(r@ =~= decimal_digits(n as nat));
        r
    } else {
        let high = usize_to_string(n / 10);
        let r = high.concat(digit_str(n % 10));
        assert(r@ =~= decimal_digits(n as nat));
        r
    }
}

} // verus!
