use vstd::prelude::*;

verus! {

/// Number of decimal places that an amount carries.
pub const SCALE: u32 = 4;

/// Largest magnitude, in ten-thousandths, of a balance: the limit of a 96-bit
/// decimal mantissa, so that every balance can be written out as a decimal.
pub const MAX_UNITS: i128 = 79228162514264337593543950335;

/// Largest number of decimal places that an incoming decimal value may carry.
pub const MAX_DECIMAL_SCALE: u32 = 28;

/// Ten to the power `n`.
pub open spec fn pow10(n: nat) -> int
    decreases n,
{
    if n == 0 {
        1
    } else {
        10 * pow10((n - 1) as nat)
    }
}

/// Whether `v` ten-thousandths lie within the range a balance may take.
pub open spec fn in_range(v: int) -> bool {
    -MAX_UNITS <= v <= MAX_UNITS
}

/// The decimal value `mantissa / 10^scale` counted in ten-thousandths, when it
/// is a whole number of them.
pub open spec fn scaled_units(mantissa: int, scale: nat) -> Option<int> {
    if scale <= SCALE {
        Some(mantissa * pow10((SCALE - scale) as nat))
    } else if mantissa % pow10((scale - SCALE) as nat) == 0 {
        Some(mantissa / pow10((scale - SCALE) as nat))
    } else {
        None
    }
}

/// A monetary amount, exact to four decimal places, held as a whole number of
/// ten-thousandths.
#[derive(Clone, Copy, Debug, PartialEq, Eq, Hash, Structural)]
pub struct Amount {
    pub units: i128,
}

proof fn lemma_pow10_monotone(i: nat, n: nat)
    requires
        i <= n,
    ensures
        1 <= pow10(i) <= pow10(n),
    decreases n,
{
    if n > 0 {
        let j: nat = if i < n { i } else { (n - 1) as nat };
        lemma_pow10_monotone(j, (n - 1) as nat);
    }
}

proof fn lemma_signed_division(m: int, k: int, negative: bool)
    requires
        k >= 1,
        negative <==> m < 0,
    ensures
        ({
            let magnitude = if negative { -m } else { m };
            &&& m % k == 0 <==> magnitude % k == 0
            &&& magnitude % k == 0 ==> m / k == if negative { -(magnitude / k) } else { magnitude / k }
        }),
{
    let magnitude = if negative { -m } else { m };
    if negative {
        vstd::arithmetic::div_mod::lemma_fundamental_div_mod(magnitude, k);
        vstd::arithmetic::div_mod::lemma_fundamental_div_mod(m, k);
        if magnitude % k == 0 {
            let q = magnitude / k;
            assert(m == (-q) * k) by (nonlinear_arith)
                requires m == -magnitude, magnitude == k * q;
            vstd::arithmetic::div_mod::lemma_mod_multiples_basic(-q, k);
            vstd::arithmetic::div_mod::lemma_div_multiples_vanish(-q, k);
            assert(k * (-q) == (-q) * k) by (nonlinear_arith);
        }
        if m % k == 0 {
            let d = m / k;
            assert(magnitude == (-d) * k) by (nonlinear_arith)
                requires m == -magnitude, m == k * d;
            vstd::arithmetic::div_mod::lemma_mod_multiples_basic(-d, k);
        }
    }
}

/// Ten to the power `n`, for the exponents a decimal scale can take.
fn pow10_exec(n: u32) -> (r: i128)
    requires
        n <= MAX_DECIMAL_SCALE,
    ensures
        r == pow10(n as nat),
        1 <= r,
{
    proof {
        lemma_pow10_monotone(n as nat, 28);
        reveal_with_fuel(pow10, 29);
    }
    let mut r: i128 = 1;
    let mut i: u32 = 0;
    while i < n
        invariant
            i <= n <= MAX_DECIMAL_SCALE,
            r == pow10(i as nat),
            pow10(n as nat) <= pow10(28),
            pow10(28) == 10000000000000000000000000000int,
        decreases n - i,
    {
        proof {
            lemma_pow10_monotone((i + 1) as nat, n as nat);
        }
        r = r * 10;
        i = i + 1;
    }
    proof {
        lemma_pow10_monotone(0, n as nat);
    }
    r
}

impl Amount {
    /// The amount zero.
    pub fn zero() -> (r: Amount)
        ensures
            r.units == 0,
    {
        Amount { units: 0 }
    }

    /// The amount of `units` ten-thousandths.
    pub fn from_units(units: i128) -> (r: Amount)
        ensures
            r.units == units,
    {
        Amount { units }
    }

    /// The amount `mantissa / 10^scale`, the parts of a decimal value; `None`
    /// where that value is not a whole number of ten-thousandths.
    pub fn from_decimal_parts(mantissa: i128, scale: u32) -> (r: Option<Amount>)
        requires
            scale <= MAX_DECIMAL_SCALE,
            -MAX_UNITS <= mantissa <= MAX_UNITS,
        ensures
            match scaled_units(mantissa as int, scale as nat) {
                Some(u) => r is Some && r->0.units == u,
                None => r is None,
            },
    {
        if scale <= SCALE {
            let k = pow10_exec(SCALE - scale);
            proof {
                lemma_pow10_monotone((SCALE - scale) as nat, 4);
                reveal_with_fuel(pow10, 5);
                assert(-MAX_UNITS * 10000 <= mantissa * k <= MAX_UNITS * 10000) by (nonlinear_arith)
                    requires
                        -MAX_UNITS <= mantissa <= MAX_UNITS,
                        1 <= k <= 10000,
                ;
            }
            Some(Amount { units: mantissa * k })
        } else {
            let k = pow10_exec(scale - SCALE);
            let negative = mantissa < 0;
            let magnitude: i128 = if negative { -mantissa } else { mantissa };
            let q = magnitude / k;
            let rem = magnitude % k;
            proof {
                lemma_signed_division(mantissa as int, k as int, negative);
            }
            if rem == 0 {
                Some(Amount { units: if negative { -q } else { q } })
            } else {
                None
            }
        }
    }
}

} // verus!
