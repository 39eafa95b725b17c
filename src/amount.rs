use vstd::prelude::*;

verus! {

/// Number of fractional decimal digits that every amount carries.
pub const SCALE: u32 = 4;

/// Largest magnitude, in units, that an amount read from the input may have:
/// the largest 96-bit mantissa.
pub const MAX_UNITS: i128 = 79228162514264337593543950335;

/// Ten to the power `n`.
pub open spec fn pow10(n: nat) -> int
    decreases n,
{
    if n == 0 {
        1
    } else {
        10 * pow10((n - 1) as nat)
    }
}

/// A signed fixed-point amount of money, counted in units of `10^-SCALE`.
#[derive(Clone, Copy, Debug, PartialEq, Eq, Structural)]
pub struct Amount {
    pub units: i128,
}

impl View for Amount {
    type V = int;

    open spec fn view(&self) -> int {
        self.units as int
    }
}

impl Amount {
    /// The amount zero.
    pub fn zero() -> (r: Amount)
        ensures
            r@ == 0,
    {
        Amount { units: 0 }
    }

    /// The amount `num * 10^-scale`.
    pub fn new(num: i64, scale: u32) -> (r: Amount)
        requires
            scale <= SCALE,
        ensures
            r@ == num * pow10((SCALE - scale) as nat),
    {
        proof {
            reveal_with_fuel(pow10, 5);
        }
        let n = num as i128;
        let units: i128 = if scale == 0 {
            n * 10000
        } else if scale == 1 {
            n * 1000
        } else if scale == 2 {
            n * 100
        } else if scale == 3 {
            n * 10
        } else {
            n
        };
        Amount { units }
    }

    /// The amount `mantissa * 10^-scale`, where it can be held exactly and its
    /// magnitude is at most `MAX_UNITS` units; `None` otherwise.
    pub fn from_parts(mantissa: i128, scale: u32) -> (r: Option<Amount>)
        ensures
            r is Some <==> scale <= SCALE && -MAX_UNITS <= mantissa * pow10(
                (SCALE - scale) as nat,
            ) <= MAX_UNITS,
            r matches Some(a) ==> a@ == mantissa * pow10((SCALE - scale) as nat),
    {
        if scale > SCALE {
            return None;
        }
        proof {
            reveal_with_fuel(pow10, 5);
        }
        if mantissa > MAX_UNITS || mantissa < -MAX_UNITS {
            proof {
                assert(pow10((SCALE - scale) as nat) >= 1);
                assert(mantissa * pow10((SCALE - scale) as nat) > MAX_UNITS || mantissa
                    * pow10((SCALE - scale) as nat) < -MAX_UNITS) by (nonlinear_arith)
                    requires
                        mantissa > MAX_UNITS || mantissa < -MAX_UNITS,
                        pow10((SCALE - scale) as nat) >= 1,
                ;
            }
            return None;
        }
        let units: i128 = if scale == 0 {
            mantissa * 10000
        } else if scale == 1 {
            mantissa * 1000
        } else if scale == 2 {
            mantissa * 100
        } else if scale == 3 {
            mantissa * 10
        } else {
            mantissa
        };
        if units > MAX_UNITS || units < -MAX_UNITS {
            None
        } else {
            Some(Amount { units })
        }
    }
}

} // verus!
