//! Stand-ins for the platform services where the printer has none: a clock
//! that stays at zero, sleeps that return at once, and pins that accept
//! every level.
use vstd::prelude::*;

verus! {

/// The time, in milliseconds: always zero.
pub fn now() -> (r: u32)
    ensures
        r == 0,
{
    0
}

/// Waiting: returns at once.
pub fn sleep(_ms: u32) {
}

/// A pin that accepts every level.
pub struct GPIO {
    pin_str: String,
    invert: bool,
}

impl GPIO {
    /// The pin name.
    pub closed spec fn pin_str(&self) -> Seq<char> {
        self.pin_str@
    }

    /// Whether its level is inverted.
    pub closed spec fn invert(&self) -> bool {
        self.invert
    }

    /// Any name makes a pin.
    pub fn new(pin_str: &str, invert: bool) -> (r: Result<GPIO, String>)
        ensures
            r matches Ok(g) && g.pin_str() == pin_str@ && g.invert() == invert,
    {
        Ok(GPIO { pin_str: String::from_str(pin_str), invert })
    }

    /// The level the pin would be driven to for `value`: `value` flipped
    /// when the pin is inverted.
    pub fn level(&self, value: bool) -> (r: bool)
        ensures
            r == (value != self.invert()),
    {
        value ^ self.invert
    }

    /// Setting a level always succeeds.
    pub fn set(&self, value: bool) -> (r: Result<(), String>)
        ensures
            r is Ok,
    {
        let _ = self.level(value);
        Ok(())
    }
}

} // verus!
