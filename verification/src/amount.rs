use vstd::prelude::*;
use vstd::string::StringExecFns;

verus! {

/// Fractional units in one whole currency unit: every amount is an exact
/// multiple of 1/10000, so four fractional decimal digits are carried.
pub const UNITS_PER_WHOLE: i64 = 10000;

/// An exact fixed-point currency amount, held as a signed count of
/// 1/10000 units. All ledger arithmetic happens on these integer counts,
/// so no rounding ever occurs before presentation.
#[derive(Clone, Copy, Debug, PartialEq, Eq, Structural)]
pub struct Amount {
    pub units: i64,
}

impl View for Amount {
    type V = int;

    open spec fn view(&self) -> int {
        self.units as int
    }
}

impl Amount {
    /// The zero amount.
    pub fn zero() -> (r: Amount)
        ensures
            r@ == 0,
    {
        Amount { units: 0 }
    }

    /// An amount holding the given count of 1/10000 units.
    pub fn from_units(units: i64) -> (r: Amount)
        ensures
            r@ == units,
    {
        Amount { units }
    }
}

/// Whether a mathematical unit count fits the machine representation
/// of an `Amount`.
pub open spec fn in_units_range(n: int) -> bool {
    i64::MIN <= n <= i64::MAX
}

/// The character for one decimal digit.
pub open spec fn dec_digit(d: int) -> char {
    if d == 0 {
        '0'
    } else if d == 1 {
        '1'
    } else if d == 2 {
        '2'
    } else if d == 3 {
        '3'
    } else if d == 4 {
        '4'
    } else if d == 5 {
        '5'
    } else if d == 6 {
        '6'
    } else if d == 7 {
        '7'
    } else if d == 8 {
        '8'
    } else {
        '9'
    }
}

/// The decimal digits of a natural number, most significant first, with
/// no leading zero except for the number zero itself.
pub open spec fn digits_of(n: nat) -> Seq<char>
    decreases n,
{
    if n < 10 {
        seq![dec_digit(n as int)]
    } else {
        digits_of(n / 10) + seq![dec_digit((n % 10) as int)]
    }
}

/// The exact text of a unit count: an optional minus sign, the whole
/// part, a point, and exactly four fractional digits.
pub open spec fn amount_text(units: int) -> Seq<char> {
    let magnitude = if units < 0 {
        -units
    } else {
        units
    };
    let frac = magnitude % (UNITS_PER_WHOLE as int);
    (if units < 0 {
        seq!['-']
    } else {
        Seq::<char>::empty()
    }) + digits_of((magnitude / (UNITS_PER_WHOLE as int)) as nat) + seq!['.'] + seq![
        dec_digit(frac / 1000),
        dec_digit((frac / 100) % 10),
        dec_digit((frac / 10) % 10),
        dec_digit(frac % 10),
    ]
}

/// Appends one decimal digit.
pub(crate) fn push_digit(s: &mut String, d: u64)
    requires
        d < 10,
    ensures
        final(s)@ == old(s)@ + seq![dec_digit(d as int)],
{
    let piece: &str = if d == 0 {
        "0"
    } else if d == 1 {
        "1"
    } else if d == 2 {
        "2"
    } else if d == 3 {
        "3"
    } else if d == 4 {
        "4"
    } else if d == 5 {
        "5"
    } else if d == 6 {
        "6"
    } else if d == 7 {
        "7"
    } else if d == 8 {
        "8"
    } else {
        "9"
    };
    proof {
        reveal_strlit("0");
        reveal_strlit("1");
        reveal_strlit("2");
        reveal_strlit("3");
        reveal_strlit("4");
        reveal_strlit("5");
        reveal_strlit("6");
        reveal_strlit("7");
        reveal_strlit("8");
        reveal_strlit("9");
        assert(piece@ =~= seq![dec_digit(d as int)]);
    }
    s.append(piece);
}

/// Appends the decimal digits of `n`, most significant first.
pub(crate) fn push_digits(s: &mut String, n: u64)
    ensures
        final(s)@ == old(s)@ + digits_of(n as nat),
    decreases n,
{
    if n >= 10 {
        push_digits(s, n / 10);
        push_digit(s, n % 10);
        proof {
            assert((old(s)@ + digits_of((n / 10) as nat)) + seq![dec_digit((n % 10) as int)]
                =~= old(s)@ + digits_of(n as nat));
        }
    } else {
        push_digit(s, n);
    }
}

/// Renders an amount with exactly four fractional digits, the fixed
/// presentation precision. No rounding is involved: the units carry
/// exactly four fractional digits already.
pub fn decimal_to_string(amount: Amount) -> (s: String)
    ensures
        s@ == amount_text(amount@),
{
    let mut s = String::new();
    let negative = amount.units < 0;
    let magnitude: u64 = if negative {
        let wide: i128 = amount.units as i128;
        (-wide) as u64
    } else {
        amount.units as u64
    };
    if negative {
        proof {
            reveal_strlit("-");
            assert("-"@ =~= seq!['-']);
        }
        s.append("-");
    }
    push_digits(&mut s, magnitude / (UNITS_PER_WHOLE as u64));
    proof {
        reveal_strlit(".");
        assert("."@ =~= seq!['.']);
    }
    s.append(".");
    let frac: u64 = magnitude % (UNITS_PER_WHOLE as u64);
    push_digit(&mut s, frac / 1000);
    push_digit(&mut s, (frac / 100) % 10);
    push_digit(&mut s, (frac / 10) % 10);
    push_digit(&mut s, frac % 10);
    proof {
        assert(s@ =~= amount_text(amount@));
    }
    s
}

} // verus!
