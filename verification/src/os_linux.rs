//! The Linux platform: pins by kernel GPIO number through sysfs, and a
//! millisecond clock counted from the start of the program.
use vstd::prelude::*;
use crate::gpio::{GpioWrite, GPIO_PREFIX, spec_decimal, spec_pin_file};

verus! {

/// Exporting or unexporting a pin (see `crate::gpio::set_pin_export`).
pub fn set_pin_export(pin_int: u16, export: bool) -> (w: GpioWrite)
    ensures
        w.path@ == GPIO_PREFIX@ + "/"@ + (if export { "export"@ } else { "unexport"@ }),
        w.data@ == spec_decimal(pin_int as nat),
{
    crate::gpio::set_pin_export(pin_int as u32, export)
}

/// Setting a pin's direction (see `crate::gpio::set_pin_direction`).
pub fn set_pin_direction(pin_int: u16, direction: bool) -> (w: GpioWrite)
    ensures
        w.path@ == spec_pin_file(pin_int as u32, "direction"@),
        w.data@ == if direction { "in"@ } else { "out"@ },
{
    crate::gpio::set_pin_direction(pin_int as u32, direction)
}

/// Setting a pin's level (see `crate::gpio::set_pin_value`).
pub fn set_pin_value(pin_int: u16, value: bool) -> (w: GpioWrite)
    ensures
        w.path@ == spec_pin_file(pin_int as u32, "value"@),
        w.data@ == if value { "1"@ } else { "0"@ },
{
    crate::gpio::set_pin_value(pin_int as u32, value)
}

/// An output pin by kernel GPIO number, with a tag that names it.
pub struct GPIO {
    pin_num: u16,
    tag: String,
    invert: bool,
}

impl GPIO {
    /// The kernel GPIO number.
    pub closed spec fn pin_num(&self) -> u16 {
        self.pin_num
    }

    /// The tag.
    pub closed spec fn tag(&self) -> Seq<char> {
        self.tag@
    }

    /// Whether its level is inverted.
    pub closed spec fn invert(&self) -> bool {
        self.invert
    }

    /// The pin; bringing it up is the writes of `init_writes`, of which the
    /// first may fail (the pin may be exported already).
    pub fn new(pin_num: u16, tag: &str, invert: bool) -> (g: GPIO)
        ensures
            g.pin_num() == pin_num,
            g.tag() == tag@,
            g.invert() == invert,
    {
        GPIO { pin_num, tag: String::from_str(tag), invert }
    }

    /// Bringing the pin up: export it, make it an output, drive it to the
    /// level of the inversion.
    pub fn init_writes(&self) -> (r: (GpioWrite, GpioWrite, GpioWrite))
        ensures
            r.0.path@ == GPIO_PREFIX@ + "/"@ + "export"@,
            r.0.data@ == spec_decimal(self.pin_num() as nat),
            r.1.path@ == spec_pin_file(self.pin_num() as u32, "direction"@),
            r.1.data@ == "out"@,
            r.2.path@ == spec_pin_file(self.pin_num() as u32, "value"@),
            r.2.data@ == if self.invert() { "1"@ } else { "0"@ },
    {
        (set_pin_export(self.pin_num, true), set_pin_direction(self.pin_num, false), set_pin_value(self.pin_num, self.invert))
    }

    /// Driving the pin to the logical level `value`, flipped when inverted.
    pub fn set(&self, value: bool) -> (w: GpioWrite)
        ensures
            w.path@ == spec_pin_file(self.pin_num() as u32, "value"@),
            w.data@ == if value != self.invert() { "1"@ } else { "0"@ },
    {
        set_pin_value(self.pin_num, value ^ self.invert)
    }

    /// Releasing the pin: drive it to the level of the inversion, then
    /// unexport it.
    pub fn release_writes(&self) -> (r: (GpioWrite, GpioWrite))
        ensures
            r.0.path@ == spec_pin_file(self.pin_num() as u32, "value"@),
            r.0.data@ == if self.invert() { "1"@ } else { "0"@ },
            r.1.path@ == GPIO_PREFIX@ + "/"@ + "unexport"@,
            r.1.data@ == spec_decimal(self.pin_num() as nat),
    {
        (set_pin_value(self.pin_num, self.invert), set_pin_export(self.pin_num, false))
    }
}

/// The wall-clock time in milliseconds, modulo 2^32, from a reading of the
/// real-time clock (`ok` false when reading it failed, which counts as 0).
pub open spec fn spec_clock_millis(ok: bool, tv_sec: i64, tv_nsec: i64) -> u32 {
    if ok {
        ((tv_sec as u64) * 1000 + (tv_nsec as u64) / 1_000_000) as u32
    } else {
        0
    }
}

/// See `spec_clock_millis`.
pub fn clock_millis(ok: bool, tv_sec: i64, tv_nsec: i64) -> (r: u32)
    requires
        ok ==> (tv_sec as u64) * 1000 + (tv_nsec as u64) / 1_000_000 <= u64::MAX,
    ensures
        r == spec_clock_millis(ok, tv_sec, tv_nsec),
{
    if ok {
        #[verifier::truncate]
        let s = tv_sec as u64;
        #[verifier::truncate]
        let n = tv_nsec as u64;
        #[verifier::truncate]
        let ms = (s * 1000 + n / 1_000_000) as u32;
        ms
    } else {
        0
    }
}

/// The milliseconds since the start of the program, from the clock now and
/// at the start.
pub fn now(start_ms: u32, clock_ms: u32) -> (r: u32)
    requires
        start_ms <= clock_ms,
    ensures
        r == clock_ms - start_ms,
{
    clock_ms - start_ms
}

} // verus!
