//! Small arithmetic and rendering helpers shared across the engine.

use vstd::prelude::*;

verus! {

/// Round `n` down to the nearest multiple of `m`.
pub fn round_down(n: usize, m: usize) -> (r: usize)
    requires
        m >= 1,
    ensures
        r == (n as int / m as int) * m,
        r % m == 0,
        r <= n < r + m,
{
    proof {
        assert((n as int / m as int) * m <= n < (n as int / m as int) * m + m && ((n as int / m
            as int) * m) % (m as int) == 0) by (nonlinear_arith)
            requires
                m >= 1,
        ;
    }
    (n / m) * m
}

/// The least multiple of `m` that is at least `n`.
pub open spec fn spec_round_up(n: int, m: int) -> int {
    ((n + m - 1) / m) * m
}

/// Round `n` up to the nearest multiple of `m`.
pub fn round_up(n: usize, m: usize) -> (r: usize)
    requires
        m >= 1,
        n + m <= usize::MAX,
    ensures
        r == spec_round_up(n as int, m as int),
        r % m == 0,
        n <= r < n + m,
{
    proof {
        let q = (n + m - 1) as int / m as int;
        assert(q * m % (m as int) == 0 && n <= q * m < n + m) by (nonlinear_arith)
            requires
                m >= 1,
                q == (n + m - 1) as int / m as int,
        ;
    }
    ((n + m - 1) / m) * m
}

/// The decimal digit character for `d`.
pub open spec fn spec_digit(d: nat) -> char {
    if d == 0 {
        '0'
    } else if d == 1 {
        '1'
    } else if d == 2 {
        '2'
    } else if d == 3 {
        '3'
    } else if d == 4 {
        '4'
    } else if d == 5 {
        '5'
    } else if d == 6 {
        '6'
    } else if d == 7 {
        '7'
    } else if d == 8 {
        '8'
    } else {
        '9'
    }
}

/// The decimal rendering of `n`, most significant digit first.
pub open spec fn spec_decimal(n: nat) -> Seq<char>
    decreases n,
{
    if n < 10 {
        seq![spec_digit(n)]
    } else {
        spec_decimal(n / 10).push(spec_digit(n % 10))
    }
}

/// One decimal digit as a string slice.
fn digit_str(d: usize) -> (r: &'static str)
    requires
        d < 10,
    ensures
        r@ == seq![spec_digit(d as nat)],
{
    proof {
        reveal_strlit("0");
        reveal_strlit("1");
        reveal_strlit("2");
        reveal_strlit("3");
        reveal_strlit("4");
        reveal_strlit("5");
        reveal_strlit("6");
        reveal_strlit("7");
        reveal_strlit("8");
        reveal_strlit("9");
    }
    if d == 0 {
        "0"
    } else if d == 1 {
        "1"
    } else if d == 2 {
        "2"
    } else if d == 3 {
        "3"
    } else if d == 4 {
        "4"
    } else if d == 5 {
        "5"
    } else if d == 6 {
        "6"
    } else if d == 7 {
        "7"
    } else if d == 8 {
        "8"
    } else {
        "9"
    }
}

/// Render `n` in decimal.
pub fn decimal_string(n: usize) -> (r: String)
    ensures
        r@ == spec_decimal(n as nat),
    decreases n,
{
    if n < 10 {
        String::from_str(digit_str(n))
    } else {
        let prefix = decimal_string(n / 10);
        let r = prefix.concat(digit_str(n % 10));
        proof {
            assert(r@ =~= spec_decimal(n as nat));
        }
        r
    }
}

} // verus!
