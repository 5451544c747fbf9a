use vstd::prelude::*;

verus! {

/// The character of a decimal digit.
pub open spec fn digit_char(d: nat) -> char {
    if d == 0 {
        '0'
    } else if d == 1 {
        '1'
    } else if d == 2 {
        '2'
    } else if d == 3 {
        '3'
    } else if d == 4 {
        '4'
    } else if d == 5 {
        '5'
    } else if d == 6 {
        '6'
    } else if d == 7 {
        '7'
    } else if d == 8 {
        '8'
    } else {
        '9'
    }
}

/// The shortest decimal text of a natural number.
pub open spec fn decimal(n: nat) -> Seq<char>
    decreases n,
{
    if n < 10 {
        seq![digit_char(n)]
    } else {
        decimal(n / 10) + seq![digit_char(n % 10)]
    }
}

/// The decimal text of an integer, with a leading minus sign when negative.
pub open spec fn signed_decimal(i: int) -> Seq<char> {
    if i < 0 {
        seq!['-'] + decimal((-i) as nat)
    } else {
        decimal(i as nat)
    }
}

proof fn lemma_digit_char_injective(a: nat, b: nat)
    requires
        a < 10,
        b < 10,
        digit_char(a) == digit_char(b),
    ensures
        a == b,
{
}

proof fn lemma_decimal_len(n: nat)
    ensures
        decimal(n).len() >= 1,
        n >= 10 ==> decimal(n).len() >= 2,
    decreases n,
{
    if n >= 10 {
        lemma_decimal_len(n / 10);
    }
}

/// Two numbers with the same decimal text are equal.
pub proof fn lemma_decimal_injective(a: nat, b: nat)
    requires
        decimal(a) == decimal(b),
    ensures
        a == b,
    decreases a,
{
    lemma_decimal_len(a);
    lemma_decimal_len(b);
    if a < 10 && b < 10 {
        assert(decimal(a)[0] == digit_char(a));
        assert(decimal(b)[0] == digit_char(b));
        lemma_digit_char_injective(a, b);
    } else if a >= 10 && b >= 10 {
        let da = decimal(a / 10);
        let db = decimal(b / 10);
        assert(decimal(a).last() == digit_char(a % 10));
        assert(decimal(b).last() == digit_char(b % 10));
        lemma_digit_char_injective(a % 10, b % 10);
        assert(decimal(a).drop_last() =~= da);
        assert(decimal(b).drop_last() =~= db);
        lemma_decimal_injective(a / 10, b / 10);
    } else {
        assert(decimal(a).len() != decimal(b).len());
    }
}

fn digit_text(d: u64) -> (r: &'static str)
    requires
        d < 10,
    ensures
        r@ == seq![digit_char(d as nat)],
{
    proof {
        reveal_strlit("0");
        reveal_strlit("1");
        reveal_strlit("2");
        reveal_strlit("3");
        reveal_strlit("4");
        reveal_strlit("5");
        reveal_strlit("6");
        reveal_strlit("7");
        reveal_strlit("8");
        reveal_strlit("9");
    }
    if d == 0 {
        "0"
    } else if d == 1 {
        "1"
    } else if d == 2 {
        "2"
    } else if d == 3 {
        "3"
    } else if d == 4 {
        "4"
    } else if d == 5 {
        "5"
    } else if d == 6 {
        "6"
    } else if d == 7 {
        "7"
    } else if d == 8 {
        "8"
    } else {
        "9"
    }
}

/// Writes `n` in decimal, most significant digit first, without leading zeros.
pub fn format_u64(n: u64) -> (r: String)
    ensures
        r@ == decimal(n as nat),
{
    let mut out = String::from_str(digit_text(n % 10));
    let mut rest: u64 = n / 10;
    while rest > 0
        invariant
            decimal(n as nat) == (if rest == 0 {
                out@
            } else {
                decimal(rest as nat) + out@
            }),
        decreases rest,
    {
        let head = String::from_str(digit_text(rest % 10));
        let ghost prev = out@;
        out = head.concat(out.as_str());
        proof {
            assert(decimal(rest as nat) == (if rest < 10 {
                seq![digit_char(rest as nat)]
            } else {
                decimal((rest / 10) as nat) + seq![digit_char((rest % 10) as nat)]
            }));
            if rest >= 10 {
                assert(decimal(rest as nat) + prev =~= decimal((rest / 10) as nat) + out@);
            } else {
                assert(decimal(rest as nat) + prev =~= out@);
            }
        }
        rest = rest / 10;
    }
    out
}

/// Writes `i` in decimal, with a leading minus sign when it is negative.
pub fn format_i64(i: i64) -> (r: String)
    ensures
        r@ == signed_decimal(i as int),
{
    if i < 0 {
        let magnitude: u64 = if i == i64::MIN {
            9223372036854775808u64
        } else {
            (-i) as u64
        };
        let digits = format_u64(magnitude);
        let sign = String::from_str("-");
        proof {
            reveal_strlit("-");
        }
        sign.concat(digits.as_str())
    } else {
        format_u64(i as u64)
    }
}

} // verus!
