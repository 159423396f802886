//! GPIO pins driven through sysfs: pin names such as `PA15` become kernel
//! GPIO numbers, and each operation is a write of a short text to a file
//! under `/sys/class/gpio`, which the caller performs.
use vstd::prelude::*;
use vstd::string::*;
use crate::gcode::{parse_u32_chars, spec_parse_u32};

verus! {

/// The directory of the sysfs GPIO interface.
pub const GPIO_PREFIX: &'static str = "/sys/class/gpio";

/// A write of `data` to the file at `path`.
#[derive(Debug, Clone)]
pub struct GpioWrite {
    pub path: String,
    pub data: String,
}

/// Bytes read as characters, one each.
pub open spec fn spec_bytes_as_chars(b: Seq<u8>) -> Seq<char> {
    b.map_values(|x: u8| x as char)
}

/// The kernel GPIO number of a pin name: the port letter (the second byte,
/// `A` for port 0) times 32, plus the number after it (from the third byte
/// on); `None` when the port byte is below `A` or the rest is not a number.
pub open spec fn spec_pin_name_to_int(b: Seq<u8>) -> Option<u32> {
    if b[1] < 0x41 {
        None
    } else {
        match spec_parse_u32(spec_bytes_as_chars(b.subrange(2, b.len() as int))) {
            None => None,
            Some(idx) => Some(((b[1] - 0x41) * 32 + idx) as u32),
        }
    }
}

/// Whether `spec_pin_name_to_int` stays within 32 bits.
pub open spec fn spec_pin_int_fits(b: Seq<u8>) -> bool {
    b[1] >= 0x41 ==> match spec_parse_u32(spec_bytes_as_chars(b.subrange(2, b.len() as int))) {
        None => true,
        Some(idx) => (b[1] - 0x41) * 32 + idx <= u32::MAX,
    }
}

/// The kernel GPIO number of a pin name (see `spec_pin_name_to_int`).
pub fn pin_name_to_int(pin_name: &str) -> (r: Option<u32>)
    requires
        pin_name.spec_bytes().len() >= 2,
        vstd::utf8::is_char_boundary(pin_name.spec_bytes(), 2),
        spec_pin_int_fits(pin_name.spec_bytes()),
    ensures
        r == spec_pin_name_to_int(pin_name.spec_bytes()),
{
    let b = pin_name.as_bytes();
    let first_byte = b[1];
    if 0x41u8 > first_byte {
        return None;
    }
    let port = first_byte - 0x41u8;
    let mut cs: Vec<char> = Vec::new();
    let mut i: usize = 2;
    while i < b.len()
        invariant
            2 <= i <= b.len(),
            cs@ == spec_bytes_as_chars(b@.subrange(2, i as int)),
        decreases b.len() - i,
    {
        cs.push(b[i] as char);
        i += 1;
        assert(cs@ =~= spec_bytes_as_chars(b@.subrange(2, i as int)));
    }
    let pin_idx = match parse_u32_chars(&cs) {
        Some(v) => v,
        None => {
            return None;
        },
    };
    let p32 = port as u32;
    assert(p32 << 5u32 == p32 * 32) by (bit_vector)
        requires
            p32 < 256;
    Some((p32 << 5u32) + pin_idx)
}

/// The kernel GPIO number of a pin name, refusing every name that has none:
/// one shorter than two bytes, one whose third byte starts inside a
/// character, one that `spec_pin_name_to_int` refuses, and one whose number
/// does not fit in 32 bits.
pub open spec fn spec_checked_pin_int(b: Seq<u8>) -> Option<u32> {
    if b.len() < 2 || !vstd::utf8::is_char_boundary(b, 2) || !spec_pin_int_fits(b) {
        None
    } else {
        spec_pin_name_to_int(b)
    }
}

/// See `spec_checked_pin_int`; never panics.
pub fn checked_pin_name_to_int(pin_name: &str) -> (r: Option<u32>)
    ensures
        r == spec_checked_pin_int(pin_name.spec_bytes()),
{
    let b = pin_name.as_bytes();
    if b.len() < 2 || !pin_name.is_char_boundary(2) {
        return None;
    }
    let first_byte = b[1];
    if 0x41u8 > first_byte {
        return None;
    }
    let port = first_byte - 0x41u8;
    let mut cs: Vec<char> = Vec::new();
    let mut i: usize = 2;
    while i < b.len()
        invariant
            2 <= i <= b.len(),
            cs@ == spec_bytes_as_chars(b@.subrange(2, i as int)),
        decreases b.len() - i,
    {
        cs.push(b[i] as char);
        i += 1;
        assert(cs@ =~= spec_bytes_as_chars(b@.subrange(2, i as int)));
    }
    let pin_idx = match parse_u32_chars(&cs) {
        Some(v) => v,
        None => {
            return None;
        },
    };
    let base = (port as u32) * 32;
    if pin_idx > u32::MAX - base {
        return None;
    }
    Some(base + pin_idx)
}

/// The decimal digit `d`.
pub open spec fn spec_digit(d: nat) -> char {
    (('0' as nat) + d) as char
}

/// The decimal text of `n`, without leading zeros.
pub open spec fn spec_decimal(n: nat) -> Seq<char>
    decreases n,
{
    if n < 10 {
        seq![spec_digit(n)]
    } else {
        spec_decimal(n / 10) + seq![spec_digit(n % 10)]
    }
}

fn digit_str(d: u32) -> (r: &'static str)
    requires
        d < 10,
    ensures
        r@ == seq![spec_digit(d as nat)],
{
    proof {
        reveal_strlit("0");
        reveal_strlit("1");
        reveal_strlit("2");
        reveal_strlit("3");
        reveal_strlit("4");
        reveal_strlit("5");
        reveal_strlit("6");
        reveal_strlit("7");
        reveal_strlit("8");
        reveal_strlit("9");
    }
    let r = if d == 0 {
        "0"
    } else if d == 1 {
        "1"
    } else if d == 2 {
        "2"
    } else if d == 3 {
        "3"
    } else if d == 4 {
        "4"
    } else if d == 5 {
        "5"
    } else if d == 6 {
        "6"
    } else if d == 7 {
        "7"
    } else if d == 8 {
        "8"
    } else {
        "9"
    };
    assert(r@ =~= seq![spec_digit(d as nat)]);
    r
}

/// The decimal text of `n`.
pub fn decimal(n: u32) -> (r: String)
    ensures
        r@ == spec_decimal(n as nat),
    decreases n,
{
    if n < 10 {
        String::from_str(digit_str(n))
    } else {
        let mut s = decimal(n / 10);
        s.append(digit_str(n % 10));
        s
    }
}

/// `"/sys/class/gpio/gpio<pin>/<file>"`.
pub open spec fn spec_pin_file(pin_int: u32, file: Seq<char>) -> Seq<char> {
    GPIO_PREFIX@ + "/gpio"@ + spec_decimal(pin_int as nat) + "/"@ + file
}

fn pin_file(pin_int: u32, file: &str) -> (r: String)
    ensures
        r@ == spec_pin_file(pin_int, file@),
{
    let mut path = String::from_str(GPIO_PREFIX);
    path.append("/gpio");
    let num = decimal(pin_int);
    path.append(num.as_str());
    path.append("/");
    path.append(file);
    assert(path@ =~= spec_pin_file(pin_int, file@));
    path
}

/// Exporting (or unexporting) a pin: its number, written to
/// `/sys/class/gpio/export` (or `unexport`).
pub fn set_pin_export(pin_int: u32, export: bool) -> (w: GpioWrite)
    ensures
        w.path@ == GPIO_PREFIX@ + "/"@ + (if export { "export"@ } else { "unexport"@ }),
        w.data@ == spec_decimal(pin_int as nat),
{
    let mut path = String::from_str(GPIO_PREFIX);
    path.append("/");
    path.append(if export { "export" } else { "unexport" });
    GpioWrite { path, data: decimal(pin_int) }
}

/// Setting a pin's direction: `in` or `out`, written to its `direction` file.
pub fn set_pin_direction(pin_int: u32, direction: bool) -> (w: GpioWrite)
    ensures
        w.path@ == spec_pin_file(pin_int, "direction"@),
        w.data@ == if direction { "in"@ } else { "out"@ },
{
    GpioWrite {
        path: pin_file(pin_int, "direction"),
        data: String::from_str(if direction { "in" } else { "out" }),
    }
}

/// Setting a pin's level: `1` or `0`, written to its `value` file.
pub fn set_pin_value(pin_int: u32, value: bool) -> (w: GpioWrite)
    ensures
        w.path@ == spec_pin_file(pin_int, "value"@),
        w.data@ == if value { "1"@ } else { "0"@ },
{
    GpioWrite {
        path: pin_file(pin_int, "value"),
        data: String::from_str(if value { "1" } else { "0" }),
    }
}

/// A sysfs GPIO pin used as an output.
pub struct GPIO {
    pin_str: String,
    pin_int: u32,
    direction: bool,
    invert: bool,
}

impl GPIO {
    /// The pin name.
    pub closed spec fn pin_str(&self) -> Seq<char> {
        self.pin_str@
    }

    /// The kernel GPIO number.
    pub closed spec fn pin_int(&self) -> u32 {
        self.pin_int
    }

    /// The direction it is set to (`true` for input).
    pub closed spec fn direction(&self) -> bool {
        self.direction
    }

    /// Whether its level is inverted.
    pub closed spec fn invert(&self) -> bool {
        self.invert
    }

    /// The pin named `pin_str`, or the message for a name that is not a pin.
    /// Bringing it up is then: `export_write(true)` (whose failure is
    /// ignored, as the pin may be exported already), a wait for the kernel,
    /// `direction_write()`, and `set(false)`.
    pub fn new(pin_str: &str, direction: bool, invert: bool) -> (r: Result<GPIO, String>)
        requires
            pin_str.spec_bytes().len() >= 2,
            vstd::utf8::is_char_boundary(pin_str.spec_bytes(), 2),
            spec_pin_int_fits(pin_str.spec_bytes()),
        ensures
            match spec_pin_name_to_int(pin_str.spec_bytes()) {
                Some(n) => r matches Ok(g) && g.pin_int() == n && g.pin_str() == pin_str@
                    && g.direction() == direction && g.invert() == invert,
                None => r matches Err(m) && m@ == "Invalid GPIO Pin: '"@ + pin_str@ + "'"@,
            },
    {
        match pin_name_to_int(pin_str) {
            Some(pin_int) => Ok(GPIO { pin_str: String::from_str(pin_str), pin_int, direction, invert }),
            None => {
                let mut msg = String::from_str("Invalid GPIO Pin: '");
                msg.append(pin_str);
                msg.append("'");
                Err(msg)
            },
        }
    }

    /// Exporting or unexporting this pin.
    pub fn export_write(&self, export: bool) -> (w: GpioWrite)
        ensures
            w.path@ == GPIO_PREFIX@ + "/"@ + (if export { "export"@ } else { "unexport"@ }),
            w.data@ == spec_decimal(self.pin_int() as nat),
    {
        set_pin_export(self.pin_int, export)
    }

    /// Setting this pin's direction.
    pub fn direction_write(&self) -> (w: GpioWrite)
        ensures
            w.path@ == spec_pin_file(self.pin_int(), "direction"@),
            w.data@ == if self.direction() { "in"@ } else { "out"@ },
    {
        set_pin_direction(self.pin_int, self.direction)
    }

    /// Driving this pin to the logical level `value`: the level written is
    /// `value` flipped when the pin is inverted.
    pub fn set(&self, value: bool) -> (w: GpioWrite)
        ensures
            w.path@ == spec_pin_file(self.pin_int(), "value"@),
            w.data@ == if value != self.invert() { "1"@ } else { "0"@ },
    {
        set_pin_value(self.pin_int, value ^ self.invert)
    }

    /// Releasing this pin: the level written is the opposite of the
    /// inversion, then the pin is unexported.
    pub fn release_writes(&self) -> (r: (GpioWrite, GpioWrite))
        ensures
            r.0.path@ == spec_pin_file(self.pin_int(), "value"@),
            r.0.data@ == if !self.invert() { "1"@ } else { "0"@ },
            r.1.path@ == GPIO_PREFIX@ + "/"@ + "unexport"@,
            r.1.data@ == spec_decimal(self.pin_int() as nat),
    {
        (set_pin_value(self.pin_int, !self.invert), set_pin_export(self.pin_int, false))
    }
}

} // verus!
