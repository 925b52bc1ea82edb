//! The charge of the battery.
use vstd::prelude::*;

verus! {

/// At this voltage, in millivolts, the battery is full.
pub const V_MAX: u32 = 4100;

/// At this voltage, in millivolts, the battery is empty.
pub const V_MIN: u32 = 3100;

/// The battery: its voltage in millivolts and its charge in percent.
#[derive(Clone, Copy, Debug, PartialEq, Eq, Structural)]
pub struct Battery {
    pub voltage: u32,
    pub percent: u32,
}

/// The charge at a voltage: the square of the part of the range that is left, in percent, to the
/// nearest number.
pub open spec fn charge(mv: int) -> int {
    if mv > V_MAX {
        100
    } else if mv < V_MIN {
        0
    } else {
        ((mv - V_MIN) * (mv - V_MIN) * 100 + 500_000) / 1_000_000
    }
}

impl Battery {
    /// A battery that was not measured.
    pub fn new() -> (b: Battery)
        ensures
            b.voltage == 0,
            b.percent == 0,
    {
        Battery { voltage: 0, percent: 0 }
    }

    /// The battery where half its voltage measures `adc_value` millivolts.
    pub fn measured(adc_value: u16) -> (b: Battery)
        ensures
            b.voltage == 2 * adc_value,
            b.percent == charge(2 * adc_value),
    {
        let voltage: u32 = adc_value as u32 * 2;
        let percent: u32 = if voltage > V_MAX {
            100
        } else if voltage < V_MIN {
            0
        } else {
            let d: u32 = voltage - V_MIN;
            assert(0 <= d * d <= 1_000_000) by (nonlinear_arith)
                requires
                    0 <= d <= 1000,
            ;
            (d * d * 100 + 500_000) / 1_000_000
        };
        Battery { voltage, percent }
    }
}

/// A higher voltage never shows less charge, and no charge is over a hundred percent.
pub proof fn law_charge_rises(a: int, b: int)
    requires
        a <= b,
    ensures
        charge(a) <= charge(b),
        0 <= charge(a) <= 100,
{
    if V_MIN <= a <= V_MAX {
        let x = a - V_MIN;
        assert(0 <= x * x <= 1_000_000) by (nonlinear_arith)
            requires
                0 <= x <= 1000,
        ;
        if V_MIN <= b <= V_MAX {
            let y = b - V_MIN;
            assert(x * x <= y * y) by (nonlinear_arith)
                requires
                    0 <= x <= y,
            ;
        }
    }
    if V_MIN <= b <= V_MAX {
        let y = b - V_MIN;
        assert(0 <= y * y) by (nonlinear_arith);
    }
}

/// The charge is the square of the part of the voltage's range that is left, to the nearest hundredth:
/// nought at 3.1 volts and below, a quarter in the middle, and a hundred at 4.1 volts and above.
pub proof fn law_charge_is_a_square(mv: int)
    ensures
        mv <= 3100 ==> charge(mv) == 0,
        mv >= 4100 ==> charge(mv) == 100,
        3100 <= mv <= 4100 ==> 10_000 * charge(mv) - 5000 <= (mv - 3100) * (mv - 3100) < 10_000 * charge(
            mv,
        ) + 5000,
{
    if mv == 3100 {
        assert((mv - 3100) * (mv - 3100) == 0) by (nonlinear_arith)
            requires
                mv == 3100,
        ;
    }
    if mv == 4100 {
        assert((mv - 3100) * (mv - 3100) == 1_000_000) by (nonlinear_arith)
            requires
                mv == 4100,
        ;
    }
    assert((mv - V_MIN) * (mv - V_MIN) == (mv - 3100) * (mv - 3100));
}

} // verus!
