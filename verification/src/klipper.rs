//! Bringing up a Klipper MCU: the commands the host sends, object-id
//! allocation for the configured axes, stepper and TMC2209 driver
//! configuration, single-step moves, and collecting the identify data.
use vstd::prelude::*;
use crate::command::{ArgValue, CommandArgFilled, CommandFilled, spec_args_view};
use crate::config::GeneralAxisConfig;
use crate::command::string_from_utf8;
use crate::error::IOError;
use crate::frame::{Frame, FramePayload};

verus! {

/// Static id of `identify { offset: u32, count: u8 }`.
pub const IDENTIFY_ID: u16 = 0;
/// Static id of `allocate_oids { count: u8 }`.
pub const ALLOCATE_OIDS_ID: u16 = 1;
/// Static id of `finalize_config { crc: u32 }`.
pub const FINALIZE_CONFIG_ID: u16 = 5;
/// Static id of `config_stepper { oid, step_pin, dir_pin, invert_step: u8, step_pulse_ticks: u32 }`.
pub const CONFIG_STEPPER_ID: u16 = 13;
/// Static id of `queue_step { oid: u8, interval: u32, count: u16, add: i16 }`.
pub const QUEUE_STEP_ID: u16 = 14;
/// Static id of `set_next_step_dir { oid: u8, dir: u8 }`.
pub const SET_NEXT_STEP_DIR_ID: u16 = 15;
/// Static id of `config_tmcuart { oid: u8, rx_pin: u32, pull_up: u8, tx_pin: u32, bit_time: u32 }`.
pub const CONFIG_TMCUART_ID: u16 = 58;
/// Static id of the response `identify_response { offset: u32, data: buffer }`.
pub const IDENTIFY_RESPONSE_ID: u16 = 0;
/// Bytes of identify data asked for at a time.
pub const IDENTIFY_COUNT: u8 = 40;
/// Most bytes of identify data kept.
pub const IDENTIFY_CAPACITY: usize = 4096;

/// The id and argument values of a command.
pub open spec fn spec_command(c: CommandFilled) -> (u16, Seq<ArgValue>) {
    (c.0, spec_args_view(c.1@))
}

/// `identify`: asks for `count` bytes of the identify data from `offset`.
pub fn cmd_identify(offset: u32, count: u8) -> (c: CommandFilled)
    ensures
        spec_command(c) == (IDENTIFY_ID, seq![ArgValue::Uint32(offset), ArgValue::Byte(count)]),
{
    let c = CommandFilled(IDENTIFY_ID, vec![CommandArgFilled::uint32(offset), CommandArgFilled::byte(count)]);
    assert(spec_args_view(c.1@) =~= seq![ArgValue::Uint32(offset), ArgValue::Byte(count)]);
    c
}

/// `allocate_oids`: the number of object ids the host will use.
pub fn cmd_allocate_oids(count: u8) -> (c: CommandFilled)
    ensures
        spec_command(c) == (ALLOCATE_OIDS_ID, seq![ArgValue::Byte(count)]),
{
    let c = CommandFilled(ALLOCATE_OIDS_ID, vec![CommandArgFilled::byte(count)]);
    assert(spec_args_view(c.1@) =~= seq![ArgValue::Byte(count)]);
    c
}

/// `finalize_config`: ends the configuration, with its checksum.
pub fn cmd_finalize_config(crc: u32) -> (c: CommandFilled)
    ensures
        spec_command(c) == (FINALIZE_CONFIG_ID, seq![ArgValue::Uint32(crc)]),
{
    let c = CommandFilled(FINALIZE_CONFIG_ID, vec![CommandArgFilled::uint32(crc)]);
    assert(spec_args_view(c.1@) =~= seq![ArgValue::Uint32(crc)]);
    c
}

/// `config_stepper`: declares a stepper with its pins.
pub fn cmd_config_stepper(oid: u8, step_pin: u8, dir_pin: u8, invert_step: u8, step_pulse_ticks: u32) -> (c: CommandFilled)
    ensures
        spec_command(c) == (CONFIG_STEPPER_ID, seq![ArgValue::Byte(oid), ArgValue::Byte(step_pin),
            ArgValue::Byte(dir_pin), ArgValue::Byte(invert_step), ArgValue::Uint32(step_pulse_ticks)]),
{
    let c = CommandFilled(CONFIG_STEPPER_ID, vec![
        CommandArgFilled::byte(oid),
        CommandArgFilled::byte(step_pin),
        CommandArgFilled::byte(dir_pin),
        CommandArgFilled::byte(invert_step),
        CommandArgFilled::uint32(step_pulse_ticks),
    ]);
    assert(spec_args_view(c.1@) =~= seq![ArgValue::Byte(oid), ArgValue::Byte(step_pin),
        ArgValue::Byte(dir_pin), ArgValue::Byte(invert_step), ArgValue::Uint32(step_pulse_ticks)]);
    c
}

/// `queue_step`: `count` steps `interval` ticks apart, the interval growing by `add`.
pub fn cmd_queue_step(oid: u8, interval: u32, count: u16, add: i16) -> (c: CommandFilled)
    ensures
        spec_command(c) == (QUEUE_STEP_ID, seq![ArgValue::Byte(oid), ArgValue::Uint32(interval),
            ArgValue::Uint16(count), ArgValue::Int16(add)]),
{
    let c = CommandFilled(QUEUE_STEP_ID, vec![
        CommandArgFilled::byte(oid),
        CommandArgFilled::uint32(interval),
        CommandArgFilled::uint16(count),
        CommandArgFilled::int16(add),
    ]);
    assert(spec_args_view(c.1@) =~= seq![ArgValue::Byte(oid), ArgValue::Uint32(interval),
        ArgValue::Uint16(count), ArgValue::Int16(add)]);
    c
}

/// `set_next_step_dir`: the direction of the next queued steps.
pub fn cmd_set_next_step_dir(oid: u8, dir: u8) -> (c: CommandFilled)
    ensures
        spec_command(c) == (SET_NEXT_STEP_DIR_ID, seq![ArgValue::Byte(oid), ArgValue::Byte(dir)]),
{
    let c = CommandFilled(SET_NEXT_STEP_DIR_ID, vec![CommandArgFilled::byte(oid), CommandArgFilled::byte(dir)]);
    assert(spec_args_view(c.1@) =~= seq![ArgValue::Byte(oid), ArgValue::Byte(dir)]);
    c
}

/// `config_tmcuart`: declares a software UART to a TMC driver.
pub fn cmd_config_tmcuart(oid: u8, rx_pin: u32, pull_up: u8, tx_pin: u32, bit_time: u32) -> (c: CommandFilled)
    ensures
        spec_command(c) == (CONFIG_TMCUART_ID, seq![ArgValue::Byte(oid), ArgValue::Uint32(rx_pin),
            ArgValue::Byte(pull_up), ArgValue::Uint32(tx_pin), ArgValue::Uint32(bit_time)]),
{
    let c = CommandFilled(CONFIG_TMCUART_ID, vec![
        CommandArgFilled::byte(oid),
        CommandArgFilled::uint32(rx_pin),
        CommandArgFilled::byte(pull_up),
        CommandArgFilled::uint32(tx_pin),
        CommandArgFilled::uint32(bit_time),
    ]);
    assert(spec_args_view(c.1@) =~= seq![ArgValue::Byte(oid), ArgValue::Uint32(rx_pin),
        ArgValue::Byte(pull_up), ArgValue::Uint32(tx_pin), ArgValue::Uint32(bit_time)]);
    c
}

/// The driver of a configured axis.
#[derive(Debug, Clone, Copy, PartialEq, Eq, Structural)]
pub enum AxisKind {
    Tmc2209,
    A4988,
    Dummy,
}

/// Object ids an axis uses: a TMC2209 its stepper and its UART, an A4988
/// its stepper, a dummy axis none.
pub open spec fn spec_oid_width(k: AxisKind) -> nat {
    match k {
        AxisKind::Dummy => 0,
        AxisKind::A4988 => 1,
        AxisKind::Tmc2209 => 2,
    }
}

/// Object ids the axes use together.
pub open spec fn spec_oid_total(axes: Seq<AxisKind>) -> nat
    decreases axes.len(),
{
    if axes.len() == 0 {
        0
    } else {
        spec_oid_total(axes.drop_last()) + spec_oid_width(axes.last())
    }
}

/// The first object id of axis `i`: the ids the axes before it use.
pub open spec fn spec_first_oid(axes: Seq<AxisKind>, i: int) -> nat {
    spec_oid_total(axes.subrange(0, i))
}

proof fn lemma_oid_total_step(axes: Seq<AxisKind>, i: int)
    requires
        0 <= i < axes.len(),
    ensures
        spec_first_oid(axes, i + 1) == spec_first_oid(axes, i) + spec_oid_width(axes[i]),
{
    assert(axes.subrange(0, i + 1).drop_last() =~= axes.subrange(0, i));
}

proof fn lemma_oid_total_monotone(axes: Seq<AxisKind>, i: int, j: int)
    requires
        0 <= i <= j <= axes.len(),
    ensures
        spec_first_oid(axes, i) <= spec_first_oid(axes, j),
    decreases j - i,
{
    if i < j {
        lemma_oid_total_monotone(axes, i, j - 1);
        lemma_oid_total_step(axes, j - 1);
    }
}

/// Number of object ids to allocate for the axes.
pub fn count_oids(axes: &Vec<AxisKind>) -> (r: u8)
    requires
        spec_oid_total(axes@) <= u8::MAX,
    ensures
        r == spec_oid_total(axes@),
{
    let mut total: u8 = 0;
    let mut i: usize = 0;
    assert(axes@.subrange(0, axes@.len() as int) =~= axes@);
    while i < axes.len()
        invariant
            i <= axes.len(),
            total == spec_first_oid(axes@, i as int),
            spec_first_oid(axes@, axes@.len() as int) <= u8::MAX,
        decreases axes.len() - i,
    {
        proof {
            lemma_oid_total_step(axes@, i as int);
            lemma_oid_total_monotone(axes@, i + 1, axes@.len() as int);
        }
        let w: u8 = match axes[i] {
            AxisKind::Dummy => 0,
            AxisKind::A4988 => 1,
            AxisKind::Tmc2209 => 2,
        };
        total = total + w;
        i += 1;
    }
    total
}

/// Number of object ids to allocate for the axes, or `None` when they need
/// more than an 8-bit count holds.
pub fn checked_count_oids(axes: &Vec<AxisKind>) -> (r: Option<u8>)
    ensures
        spec_oid_total(axes@) <= u8::MAX ==> r == Some(spec_oid_total(axes@) as u8),
        spec_oid_total(axes@) > u8::MAX ==> r is None,
{
    let mut total: u32 = 0;
    let mut i: usize = 0;
    assert(axes@.subrange(0, axes@.len() as int) =~= axes@);
    while i < axes.len()
        invariant
            i <= axes.len(),
            total == spec_first_oid(axes@, i as int),
            total <= u8::MAX,
            axes@.subrange(0, axes@.len() as int) == axes@,
        decreases axes.len() - i,
    {
        proof {
            lemma_oid_total_step(axes@, i as int);
            lemma_oid_total_monotone(axes@, i + 1, axes@.len() as int);
        }
        let w: u32 = match axes[i] {
            AxisKind::Dummy => 0,
            AxisKind::A4988 => 1,
            AxisKind::Tmc2209 => 2,
        };
        total = total + w;
        i += 1;
        if total > 255 {
            return None;
        }
    }
    Some(total as u8)
}

/// The first object id of each axis, in order: each axis takes the ids
/// after those of the axes before it.
pub fn assign_oids(axes: &Vec<AxisKind>) -> (r: Vec<u8>)
    requires
        spec_oid_total(axes@) <= u8::MAX,
    ensures
        r.len() == axes.len(),
        forall|i: int| 0 <= i < axes.len() ==> r[i] == spec_first_oid(axes@, i),
{
    let mut out: Vec<u8> = Vec::new();
    let mut current: u8 = 0;
    let mut i: usize = 0;
    assert(axes@.subrange(0, axes@.len() as int) =~= axes@);
    assert(axes@.subrange(0, 0) =~= Seq::<AxisKind>::empty());
    while i < axes.len()
        invariant
            i <= axes.len(),
            out.len() == i,
            current == spec_first_oid(axes@, i as int),
            forall|k: int| 0 <= k < i ==> out[k] == spec_first_oid(axes@, k),
            spec_first_oid(axes@, axes@.len() as int) <= u8::MAX,
        decreases axes.len() - i,
    {
        proof {
            lemma_oid_total_step(axes@, i as int);
            lemma_oid_total_monotone(axes@, i + 1, axes@.len() as int);
        }
        out.push(current);
        let w: u8 = match axes[i] {
            AxisKind::Dummy => 0,
            AxisKind::A4988 => 1,
            AxisKind::Tmc2209 => 2,
        };
        current = current + w;
        i += 1;
    }
    out
}

/// The object ids given to different axes do not overlap, and all lie
/// below the number allocated.
pub proof fn lemma_oids_disjoint(axes: Seq<AxisKind>, i: int, j: int)
    requires
        0 <= i < j < axes.len(),
    ensures
        spec_first_oid(axes, i) + spec_oid_width(axes[i]) <= spec_first_oid(axes, j),
        spec_first_oid(axes, j) + spec_oid_width(axes[j]) <= spec_oid_total(axes),
{
    lemma_oid_total_step(axes, i);
    lemma_oid_total_monotone(axes, i + 1, j);
    lemma_oid_total_step(axes, j);
    lemma_oid_total_monotone(axes, j + 1, axes.len() as int);
    assert(axes.subrange(0, axes.len() as int) =~= axes);
}

/// The `invert_step` value of `config_stepper`: 2 when both the step and the
/// direction pin are inverted, else the step pin's inversion.
pub open spec fn spec_invert_step(step_invert: u8, dir_invert: u8) -> u8 {
    if step_invert > 0 && dir_invert > 0 { 2 } else { step_invert }
}

/// See `spec_invert_step`.
pub fn invert_step(step_invert: u8, dir_invert: u8) -> (r: u8)
    ensures
        r == spec_invert_step(step_invert, dir_invert),
{
    if step_invert > 0 && dir_invert > 0 { 2 } else { step_invert }
}

/// A pin of the MCU, by number, with its inversion.
#[derive(Debug, Clone, Copy, PartialEq, Eq, Structural)]
pub struct McuPin {
    pub num: u8,
    pub invert: u8,
}

/// A stepper driven through an A4988.
#[derive(Debug, Clone, Copy)]
pub struct KA4988 {
    pub step_pin: McuPin,
    pub dir_pin: McuPin,
    pub config: GeneralAxisConfig,
    pub oid: u8,
}

impl KA4988 {
    /// Sets up the stepper with object id `oid`, from its step and direction
    /// pins (`None` where the pin name did not resolve): gives the axis and
    /// the `config_stepper` command to send.
    pub fn new(step_pin: Option<McuPin>, dir_pin: Option<McuPin>, config: GeneralAxisConfig, oid: u8)
        -> (r: Result<(KA4988, CommandFilled), IOError>)
        ensures
            match (step_pin, dir_pin) {
                (Some(s), Some(d)) => r matches Ok((a, c)) && a.step_pin == s && a.dir_pin == d
                    && a.oid == oid && spec_command(c) == (CONFIG_STEPPER_ID, seq![ArgValue::Byte(oid),
                    ArgValue::Byte(s.num), ArgValue::Byte(d.num), ArgValue::Byte(spec_invert_step(s.invert, d.invert)),
                    ArgValue::Uint32(0)]),
                _ => r == Err::<(KA4988, CommandFilled), IOError>(IOError::InvalidPin),
            },
    {
        let s = match step_pin {
            Some(p) => p,
            None => {
                return Err(IOError::InvalidPin);
            },
        };
        let d = match dir_pin {
            Some(p) => p,
            None => {
                return Err(IOError::InvalidPin);
            },
        };
        let c = cmd_config_stepper(oid, s.num, d.num, invert_step(s.invert, d.invert), 0);
        Ok((KA4988 { step_pin: s, dir_pin: d, config, oid }, c))
    }
}

/// What the TMC2209 set-up reads of an axis configuration.
#[derive(Debug, Clone, Copy)]
pub struct Tmc2209Settings {
    pub step_pin: McuPin,
    pub dir_pin: McuPin,
    pub uart_pin: McuPin,
    pub tx_pin: McuPin,
    pub uart_address: u8,
    pub driver_sgthrs: u8,
    pub interpolate: bool,
    /// Travel per full rotation of the motor shaft.
    pub rotation_distance: i32,
    pub full_steps_per_rotation: u16,
    pub microsteps: u16,
}

/// The driver's current settings as register fields: the sense range bit
/// and the run and hold current scales.
#[derive(Debug, Clone, Copy)]
pub struct TmcCurrent {
    pub vsense: bool,
    pub irun: u8,
    pub ihold: u8,
}

/// A stepper driven through a TMC2209.
#[derive(Debug, Clone, Copy)]
pub struct KTMC2209 {
    pub motor_oid: u8,
    pub clock_freq: u32,
    /// Travel per microstep.
    pub step_dd: i32,
    pub dir_pin_invert: u8,
}

/// What setting up a TMC2209 sends: the stepper and UART declarations, then
/// the register writes (register, value), in order, to the driver at
/// `uart_address` through the UART with object id `uart_oid`.
pub struct Tmc2209Setup {
    pub config_stepper: CommandFilled,
    pub config_tmcuart: CommandFilled,
    pub uart_oid: u8,
    pub uart_address: u8,
    pub registers: Vec<(u8, u32)>,
}

/// One step of setting up a TMC2209, in the order they are carried out.
pub enum Tmc2209Step {
    /// Send this command and expect an acknowledgement.
    Send(CommandFilled),
    /// Write `value` to register `reg` of the driver at `address`, through
    /// the UART with object id `uart_oid`, and check the reply.
    WriteRegister { uart_oid: u8, address: u8, reg: u8, value: u32 },
}

impl Tmc2209Setup {
    /// The steps, in order: the stepper declaration, the UART declaration,
    /// then one register write per entry of `registers`, in their order.
    pub fn steps(self) -> (r: Vec<Tmc2209Step>)
        ensures
            r.len() == 2 + self.registers.len(),
            r[0] == Tmc2209Step::Send(self.config_stepper),
            r[1] == Tmc2209Step::Send(self.config_tmcuart),
            forall|k: int| 0 <= k < self.registers.len() ==> r[2 + k] == (Tmc2209Step::WriteRegister {
                uart_oid: self.uart_oid,
                address: self.uart_address,
                reg: self.registers[k].0,
                value: self.registers[k].1,
            }),
    {
        let Tmc2209Setup { config_stepper, config_tmcuart, uart_oid, uart_address, registers } = self;
        let mut out: Vec<Tmc2209Step> = Vec::new();
        out.push(Tmc2209Step::Send(config_stepper));
        out.push(Tmc2209Step::Send(config_tmcuart));
        let mut k: usize = 0;
        while k < registers.len()
            invariant
                k <= registers.len(),
                out.len() == 2 + k,
                out[0] == Tmc2209Step::Send(config_stepper),
                out[1] == Tmc2209Step::Send(config_tmcuart),
                forall|q: int| 0 <= q < k ==> out[2 + q] == (Tmc2209Step::WriteRegister {
                    uart_oid,
                    address: uart_address,
                    reg: registers[q].0,
                    value: registers[q].1,
                }),
            decreases registers.len() - k,
        {
            let (reg, value) = registers[k];
            out.push(Tmc2209Step::WriteRegister { uart_oid, address: uart_address, reg, value });
            k += 1;
        }
        out
    }
}

/// Where a sequence of steps stands.
#[derive(Debug, Clone, Copy, PartialEq, Eq, Structural)]
pub enum SetupProgress {
    /// Carry out the step at this position.
    Next(usize),
    /// Every step succeeded.
    Done,
    /// The last step failed with this error; nothing more is done.
    Stop(IOError),
}

/// After `done` of `total` steps, the last of which gave `last`: a failure
/// stops the sequence with its error, otherwise the next step follows until
/// all are done.
pub fn setup_progress(done: usize, total: usize, last: Result<(), IOError>) -> (r: SetupProgress)
    requires
        done <= total,
    ensures
        match last {
            Err(e) => r == SetupProgress::Stop(e),
            Ok(()) => r == if done == total { SetupProgress::Done } else { SetupProgress::Next(done) },
        },
{
    match last {
        Err(e) => SetupProgress::Stop(e),
        Ok(()) => if done == total { SetupProgress::Done } else { SetupProgress::Next(done) },
    }
}

/// A bit of a register value.
pub open spec fn spec_bit(b: bool) -> u32 {
    if b { 1 } else { 0 }
}

/// The register writes of the TMC2209 set-up, in order: GCONF, CHOPCONF,
/// IHOLD_IRUN, TPOWERDOWN, SGTHRS, COOLCONF, PWMCONF, TCOOLTHRS, TPWMTHRS.
pub open spec fn spec_tmc_registers(interpolate: bool, current: TmcCurrent, sgthrs: u8) -> Seq<(u8, u32)> {
    seq![
        (0x00u8, (1u32 << 6u32) | (1u32 << 7u32) | (1u32 << 8u32) | (1u32 << 2u32)),
        (0x6Cu8, (3u32 << 0u32) | (5u32 << 4u32) | (0u32 << 7u32) | (2u32 << 15u32) | (4u32 << 24u32)
            | (spec_bit(interpolate) << 28u32) | (spec_bit(current.vsense) << 17u32)),
        (0x10u8, (current.ihold as u32) | ((current.irun as u32) << 8u32) | (8u32 << 16u32)),
        (0x11u8, 20u32),
        (0x40u8, sgthrs as u32),
        (0x42u8, (sgthrs as u32) << 16u32),
        (0x70u8, (36u32 << 0u32) | (14u32 << 8u32) | (1u32 << 16u32) | (1u32 << 18u32) | (1u32 << 19u32)),
        (0x14u8, 0xFFFFFu32),
        (0x13u8, 0u32),
    ]
}

/// The register values written, as numbers.
pub proof fn lemma_tmc_register_values(interpolate: bool, current: TmcCurrent, sgthrs: u8)
    requires
        current.irun < 32,
        current.ihold < 32,
    ensures
        ({
            let r = spec_tmc_registers(interpolate, current, sgthrs);
            &&& r[0].1 == 0x1C4
            &&& r[1].1 == 0x0401_0053 + 0x1000_0000 * spec_bit(interpolate) + 0x2_0000 * spec_bit(current.vsense)
            &&& r[2].1 == current.ihold + 0x100 * current.irun + 0x8_0000
            &&& r[5].1 == 0x1_0000 * sgthrs
            &&& r[6].1 == 0xD_0E24
        }),
{
    let i = spec_bit(interpolate);
    let v = spec_bit(current.vsense);
    let h = current.ihold as u32;
    let u = current.irun as u32;
    let g = sgthrs as u32;
    assert((1u32 << 6u32) | (1u32 << 7u32) | (1u32 << 8u32) | (1u32 << 2u32) == 0x1C4) by (bit_vector);
    assert(i <= 1 && v <= 1 ==> (3u32 << 0u32) | (5u32 << 4u32) | (0u32 << 7u32) | (2u32 << 15u32) | (4u32 << 24u32)
        | (i << 28u32) | (v << 17u32) == 0x0401_0053 + 0x1000_0000 * i + 0x2_0000 * v) by (bit_vector);
    assert(h < 32 && u < 32 ==> h | (u << 8u32) | (8u32 << 16u32) == h + 0x100 * u + 0x8_0000) by (bit_vector);
    assert(g < 256 ==> g << 16u32 == 0x1_0000 * g) by (bit_vector);
    assert((36u32 << 0u32) | (14u32 << 8u32) | (1u32 << 16u32) | (1u32 << 18u32) | (1u32 << 19u32) == 0xD_0E24) by (bit_vector);
}

/// `a / b` rounded toward zero, for `b > 0`.
pub open spec fn spec_div_toward_zero(a: int, b: int) -> int {
    if a >= 0 { a / b } else { -((-a) / b) }
}

/// The full steps per rotation times the microsteps.
pub open spec fn spec_total_steps(s: Tmc2209Settings) -> int {
    s.full_steps_per_rotation * s.microsteps
}

/// What setting up a TMC2209 gives: the axis with its object id, clock,
/// travel per microstep (the rotation distance over the microsteps per
/// rotation, rounded toward zero) and direction inversion; the stepper and
/// UART declarations; the UART's object id (one after the stepper's) and
/// driver address; and the register values.
pub open spec fn spec_tmc2209_setup(settings: Tmc2209Settings, current: TmcCurrent, oid: u8, clock_freq: u32,
    axis: KTMC2209, setup: Tmc2209Setup) -> bool
{
    &&& axis.motor_oid == oid
    &&& axis.clock_freq == clock_freq
    &&& axis.step_dd == spec_div_toward_zero(settings.rotation_distance as int, spec_total_steps(settings))
    &&& axis.dir_pin_invert == settings.dir_pin.invert
    &&& spec_command(setup.config_stepper) == (CONFIG_STEPPER_ID, seq![ArgValue::Byte(oid),
        ArgValue::Byte(settings.step_pin.num), ArgValue::Byte(settings.dir_pin.num),
        ArgValue::Byte(spec_invert_step(settings.step_pin.invert, settings.dir_pin.invert)),
        ArgValue::Uint32(0)])
    &&& spec_command(setup.config_tmcuart) == (CONFIG_TMCUART_ID, seq![ArgValue::Byte((oid + 1) as u8),
        ArgValue::Uint32(settings.uart_pin.num as u32), ArgValue::Byte(0),
        ArgValue::Uint32(settings.tx_pin.num as u32), ArgValue::Uint32(clock_freq / 40_000)])
    &&& setup.uart_oid == oid + 1
    &&& setup.uart_address == settings.uart_address
    &&& setup.registers@ == spec_tmc_registers(settings.interpolate, current, settings.driver_sgthrs)
}

/// Whether a TMC2209 can be set up: an object id is left for its UART and
/// the microsteps per rotation are at least one and fit in 32 signed bits.
pub open spec fn spec_tmc2209_fits(settings: Tmc2209Settings, oid: u8) -> bool {
    oid < u8::MAX && 0 < spec_total_steps(settings) <= i32::MAX
}

impl KTMC2209 {
    /// Sets up a TMC2209 stepper whose stepper gets object id `oid` and whose
    /// UART gets `oid + 1`, on an MCU running at `clock_freq` ticks per second:
    /// gives the axis and what to send.
    pub fn new(settings: &Tmc2209Settings, current: TmcCurrent, oid: u8, clock_freq: u32) -> (r: (KTMC2209, Tmc2209Setup))
        requires
            oid < u8::MAX,
            0 < spec_total_steps(*settings) <= i32::MAX,
        ensures
            spec_tmc2209_setup(*settings, current, oid, clock_freq, r.0, r.1),
    {
        let motor_oid = oid;
        let tmc_uart_oid = oid + 1;
        let one_wire = settings.uart_pin.num == settings.tx_pin.num;
        let config_stepper = cmd_config_stepper(
            motor_oid,
            settings.step_pin.num,
            settings.dir_pin.num,
            invert_step(settings.step_pin.invert, settings.dir_pin.invert),
            0,
        );
        let rx_pin = settings.uart_pin.num as u32;
        let tx_pin = if one_wire { rx_pin } else { settings.tx_pin.num as u32 };
        let bit_time = clock_freq / 40_000;
        let config_tmcuart = cmd_config_tmcuart(tmc_uart_oid, rx_pin, 0, tx_pin, bit_time);
        let interp: u32 = if settings.interpolate { 1 } else { 0 };
        let vsense: u32 = if current.vsense { 1 } else { 0 };
        let gconf: u32 = (1u32 << 6u32) | (1u32 << 7u32) | (1u32 << 8u32) | (1u32 << 2u32);
        let mres: u32 = 4;
        let chopconf: u32 = (3u32 << 0u32) | (5u32 << 4u32) | (0u32 << 7u32) | (2u32 << 15u32) | (mres << 24u32)
            | (interp << 28u32) | (vsense << 17u32);
        let ihold_irun: u32 = (current.ihold as u32) | ((current.irun as u32) << 8u32) | (8u32 << 16u32);
        let coolconf: u32 = (settings.driver_sgthrs as u32) << 16u32;
        let pwmconf: u32 = (36u32 << 0u32) | (14u32 << 8u32) | (1u32 << 16u32) | (1u32 << 18u32) | (1u32 << 19u32);
        let registers: Vec<(u8, u32)> = vec![
            (0x00u8, gconf),
            (0x6Cu8, chopconf),
            (0x10u8, ihold_irun),
            (0x11u8, 20u32),
            (0x40u8, settings.driver_sgthrs as u32),
            (0x42u8, coolconf),
            (0x70u8, pwmconf),
            (0x14u8, 0xFFFFFu32),
            (0x13u8, 0u32),
        ];
        assert(registers@ =~= spec_tmc_registers(settings.interpolate, current, settings.driver_sgthrs));
        let total_steps: i32 = (settings.full_steps_per_rotation as i32) * (settings.microsteps as i32);
        let rd = settings.rotation_distance;
        let step_dd: i32 = if rd >= 0 {
            ((rd as u32) / (total_steps as u32)) as i32
        } else {
            let mag: u64 = (0i64 - (rd as i64)) as u64;
            let q: u64 = mag / (total_steps as u64);
            (0i64 - (q as i64)) as i32
        };
        (
            KTMC2209 { motor_oid, clock_freq, step_dd, dir_pin_invert: settings.dir_pin.invert },
            Tmc2209Setup { config_stepper, config_tmcuart, uart_oid: tmc_uart_oid, uart_address: settings.uart_address, registers },
        )
    }

    /// `new` where the set-up can be made (see `spec_tmc2209_fits`), `None`
    /// where it cannot.
    pub fn try_new(settings: &Tmc2209Settings, current: TmcCurrent, oid: u8, clock_freq: u32)
        -> (r: Option<(KTMC2209, Tmc2209Setup)>)
        ensures
            spec_tmc2209_fits(*settings, oid) <==> r is Some,
            r matches Some((a, s)) ==> spec_tmc2209_setup(*settings, current, oid, clock_freq, a, s),
    {
        let full = settings.full_steps_per_rotation as u64;
        let micro = settings.microsteps as u64;
        assert(full * micro <= 0xffff * 0xffff) by (nonlinear_arith)
            requires
                full <= 0xffff,
                micro <= 0xffff;
        let total: u64 = full * micro;
        if oid == u8::MAX || total == 0 || total > 0x7fff_ffff {
            return None;
        }
        Some(KTMC2209::new(settings, current, oid, clock_freq))
    }

    /// The direction bit for a move at `raw` (towards positive is 0), flipped
    /// when the direction pin is inverted.
    pub open spec fn spec_move_dir(&self, raw: i32) -> u8 {
        (if raw > 0 { 0u8 } else { 1u8 }) ^ (self.dir_pin_invert & 1u8)
    }

    /// Ticks between steps for a move at `raw` travel per millisecond.
    pub open spec fn spec_move_interval(&self, raw: i32) -> int {
        ((self.clock_freq / 1000) * (self.step_dd as u32)) / spec_abs(raw as int)
    }

    /// Whether a move at `raw` queues a step: it is not at rest and the
    /// travel per microstep, as a tick count, is not zero.
    pub open spec fn spec_move_steps(&self, raw: i32) -> bool {
        raw != 0 && (self.step_dd as u32) != 0
    }

    /// The commands of a single-step move at `raw` travel per millisecond:
    /// the direction, then, unless at rest or without a step size, one step
    /// at the interval `(clock_freq / 1000) * step / |raw|`.
    pub fn simple_move(&self, raw: i32) -> (r: Vec<CommandFilled>)
        requires
            self.spec_move_steps(raw) ==> (self.clock_freq / 1000) * (self.step_dd as u32) <= u32::MAX,
        ensures
            r.len() == if self.spec_move_steps(raw) { 2int } else { 1int },
            spec_command(r[0]) == (SET_NEXT_STEP_DIR_ID, seq![ArgValue::Byte(self.motor_oid), ArgValue::Byte(self.spec_move_dir(raw))]),
            self.spec_move_steps(raw) ==> spec_command(r[1]) == (QUEUE_STEP_ID, seq![ArgValue::Byte(self.motor_oid),
                ArgValue::Uint32(self.spec_move_interval(raw) as u32), ArgValue::Uint16(1), ArgValue::Int16(0)]),
    {
        let d: u8 = if raw > 0 { 0 } else { 1 };
        let dir = d ^ (self.dir_pin_invert & 1);
        let mut out: Vec<CommandFilled> = Vec::new();
        out.push(cmd_set_next_step_dir(self.motor_oid, dir));
        if raw == 0 {
            return out;
        }
        #[verifier::truncate]
        let step = self.step_dd as u32;
        if step == 0 {
            return out;
        }
        let ticks_per_ms = self.clock_freq / 1000;
        let mag: u32 = if raw < 0 { (0i64 - (raw as i64)) as u32 } else { raw as u32 };
        let interval = ticks_per_ms * step / mag;
        out.push(cmd_queue_step(self.motor_oid, interval, 1, 0));
        out
    }
}

/// The absolute value.
pub open spec fn spec_abs(a: int) -> int {
    if a < 0 { -a } else { a }
}

#[verifier::external_type_specification]
#[verifier::external_body]
#[verifier::reject_recursive_types(T)]
pub struct ExHeaplessVec<T, const N: usize>(heapless::Vec<T, N>);

/// The bytes a fixed-capacity identify buffer holds.
pub uninterp spec fn identify_buffer_bytes(v: heapless::Vec<u8, 4096>) -> Seq<u8>;

/// Calls `heapless::Vec::new`: an empty buffer.
#[verifier::external_body]
fn identify_buffer_new() -> (r: heapless::Vec<u8, 4096>)
    ensures
        identify_buffer_bytes(r) == Seq::<u8>::empty(),
{
    heapless::Vec::new()
}

/// Calls `heapless::Vec::extend_from_slice`: when the bytes fit in the
/// capacity they are appended and the call succeeds; otherwise nothing
/// changes and it fails.
#[verifier::external_body]
fn identify_buffer_extend(v: &mut heapless::Vec<u8, 4096>, data: &[u8]) -> (r: Result<(), ()>)
    ensures
        identify_buffer_bytes(*old(v)).len() + data@.len() <= 4096 ==> r is Ok
            && identify_buffer_bytes(*final(v)) == identify_buffer_bytes(*old(v)) + data@,
        identify_buffer_bytes(*old(v)).len() + data@.len() > 4096 ==> r is Err
            && identify_buffer_bytes(*final(v)) == identify_buffer_bytes(*old(v)),
{
    v.extend_from_slice(data)
}

/// Calls `heapless::Vec::as_slice`: the bytes held.
#[verifier::external_body]
fn identify_buffer_as_slice(v: &heapless::Vec<u8, 4096>) -> (r: &[u8])
    ensures
        r@ == identify_buffer_bytes(*v),
{
    v.as_slice()
}

/// What inflating zlib-wrapped deflate data gives: the inflated bytes, or,
/// when the data is not a valid zlib stream, the inflater's status code.
pub uninterp spec fn zlib_inflate(input: Seq<u8>) -> Result<Seq<u8>, i8>;

/// Calls `miniz_oxide::inflate::decompress_to_vec_zlib`, whose result depends
/// on the input bytes alone: the inflated bytes on success; on failure the
/// `status` of its `DecompressError`, as the `i8` that `TINFLStatus` is
/// represented by (the bytes inflated before the failure are not kept).
#[verifier::external_body]
fn decompress_zlib(input: &[u8]) -> (r: Result<Vec<u8>, i8>)
    ensures
        match r {
            Ok(v) => zlib_inflate(input@) == Ok::<Seq<u8>, i8>(v@),
            Err(status) => zlib_inflate(input@) == Err::<Seq<u8>, i8>(status),
        },
{
    match miniz_oxide::inflate::decompress_to_vec_zlib(input) {
        Ok(v) => Ok(v),
        Err(e) => Err(e.status as i8),
    }
}

/// The identify text from the result of inflating the identify data: the
/// data read as UTF-8; `ZlibDecode` with the inflater's status when
/// inflating failed; `InvalidUTF8` when the bytes are not UTF-8.
pub fn identify_text(inflated: Result<Vec<u8>, i8>) -> (r: Result<String, IOError>)
    ensures
        match inflated {
            Err(status) => r == Err::<String, IOError>(IOError::ZlibDecode { status }),
            Ok(b) => if vstd::utf8::valid_utf8(b@) {
                r matches Ok(s) && vstd::utf8::encode_utf8(s@) == b@
            } else {
                r == Err::<String, IOError>(IOError::InvalidUTF8)
            },
        },
{
    match inflated {
        Err(status) => Err(IOError::ZlibDecode { status }),
        Ok(b) => match string_from_utf8(b) {
            Some(s) => Ok(s),
            None => Err(IOError::InvalidUTF8),
        },
    }
}

/// The identify text from the compressed identify data (see `identify_text`).
pub fn from_zlib_bytes(zlib_bytes: &[u8]) -> (r: Result<String, IOError>)
    ensures
        match zlib_inflate(zlib_bytes@) {
            Err(status) => r == Err::<String, IOError>(IOError::ZlibDecode { status }),
            Ok(b) => if vstd::utf8::valid_utf8(b) {
                r matches Ok(s) && vstd::utf8::encode_utf8(s@) == b
            } else {
                r == Err::<String, IOError>(IOError::InvalidUTF8)
            },
        },
{
    identify_text(decompress_zlib(zlib_bytes))
}

/// Collects the compressed identify data, `IDENTIFY_COUNT` bytes per
/// request, keeping at most `IDENTIFY_CAPACITY` bytes.
pub struct IdentifyReader {
    chunk: u32,
    buffer: heapless::Vec<u8, 4096>,
}

/// The data of an `identify_response`; `None` for any other reply or none.
pub open spec fn spec_identify_data(reply: Option<(u16, Seq<ArgValue>)>) -> Option<Seq<u8>> {
    match reply {
        Some((id, args)) => if id == IDENTIFY_RESPONSE_ID && args.len() == 2 && args[1] is Buffer {
            Some(args[1]->Buffer_0)
        } else {
            None
        },
        None => None,
    }
}

impl IdentifyReader {
    /// The number of requests answered with data so far, modulo 2^32.
    pub closed spec fn chunk(&self) -> u32 {
        self.chunk
    }

    /// The bytes kept so far.
    pub closed spec fn bytes(&self) -> Seq<u8> {
        identify_buffer_bytes(self.buffer)
    }

    /// Well formed: no more bytes than the capacity.
    pub closed spec fn wf(&self) -> bool {
        identify_buffer_bytes(self.buffer).len() <= IDENTIFY_CAPACITY
    }

    /// Nothing read yet.
    pub fn new() -> (r: IdentifyReader)
        ensures
            r.wf(),
            r.chunk() == 0,
            r.bytes() == Seq::<u8>::empty(),
    {
        IdentifyReader { chunk: 0, buffer: identify_buffer_new() }
    }

    /// The next request: `IDENTIFY_COUNT` bytes from offset
    /// `chunk * IDENTIFY_COUNT` (modulo 2^32).
    pub fn request(&self) -> (c: CommandFilled)
        ensures
            spec_command(c) == (IDENTIFY_ID, seq![
                ArgValue::Uint32(((self.chunk() as int * IDENTIFY_COUNT as int) % 0x1_0000_0000) as u32),
                ArgValue::Byte(IDENTIFY_COUNT),
            ]),
    {
        let offset = self.chunk.wrapping_mul(IDENTIFY_COUNT as u32);
        cmd_identify(offset, IDENTIFY_COUNT)
    }

    /// Takes the reply to a request (`None` for an acknowledgement): an
    /// `identify_response` with no data ends the reading (`true`); one with
    /// data adds it when it fits in the capacity, and moves to the next
    /// offset either way; any other reply is skipped.
    pub fn on_reply(&mut self, reply: &Option<CommandFilled>) -> (done: bool)
        requires
            old(self).wf(),
        ensures
            final(self).wf(),
            ({
                let data = spec_identify_data(match reply { Some(c) => Some(spec_command(*c)), None => None });
                match data {
                    Some(d) => if d.len() == 0 {
                        done && final(self).chunk() == old(self).chunk() && final(self).bytes() == old(self).bytes()
                    } else {
                        &&& !done
                        &&& final(self).chunk() == ((old(self).chunk() + 1) % 0x1_0000_0000) as u32
                        &&& final(self).bytes() == if old(self).bytes().len() + d.len() <= IDENTIFY_CAPACITY {
                            old(self).bytes() + d
                        } else {
                            old(self).bytes()
                        }
                    },
                    None => !done && final(self).chunk() == old(self).chunk() && final(self).bytes() == old(self).bytes(),
                }
            }),
    {
        match reply {
            Some(c) => {
                if c.0 == IDENTIFY_RESPONSE_ID && c.1.len() == 2 {
                    match &c.1[1] {
                        CommandArgFilled::buffer(data) => {
                            if data.len() == 0 {
                                return true;
                            }
                            let _ = identify_buffer_extend(&mut self.buffer, data.as_slice());
                            self.chunk = self.chunk.wrapping_add(1);
                            false
                        },
                        _ => false,
                    }
                } else {
                    false
                }
            },
            None => false,
        }
    }

    /// The bytes kept so far.
    pub fn data(&self) -> (r: &[u8])
        ensures
            r@ == self.bytes(),
    {
        identify_buffer_as_slice(&self.buffer)
    }
}

/// The host end of a Klipper link: the sequence number that the next frame
/// carries, which is the one the MCU last sent.
pub struct KlipperSession {
    pub seq: u8,
}

impl KlipperSession {
    /// A link on which nothing was received yet.
    pub fn new() -> (r: KlipperSession)
        ensures
            r.seq == 0,
    {
        KlipperSession { seq: 0 }
    }

    /// The frame that sends `cmd`.
    pub fn frame_for(&self, cmd: CommandFilled) -> (f: Frame)
        ensures
            f.seq == self.seq,
            f.payload == FramePayload::SendCommand(cmd),
    {
        Frame::send(self.seq, cmd)
    }

    /// Takes a frame received from the MCU: keeps its sequence number and
    /// gives its command, or `None` for an acknowledgement.
    pub fn on_frame(&mut self, frame: Frame) -> (r: Option<CommandFilled>)
        requires
            !(frame.payload is SendCommand),
        ensures
            final(self).seq == frame.seq,
            match frame.payload {
                FramePayload::RecvCommand(c) => r == Some(c),
                _ => r is None,
            },
    {
        self.seq = frame.seq();
        match frame.payload {
            FramePayload::RecvCommand(c) => Some(c),
            _ => None,
        }
    }
}

/// A reply that must be an acknowledgement: a command is `UnexpectedData`.
pub fn expect_ack(reply: Option<CommandFilled>) -> (r: Result<(), IOError>)
    ensures
        reply is None <==> r is Ok,
        reply is Some ==> r == Err::<(), IOError>(IOError::UnexpectedData),
{
    match reply {
        None => Ok(()),
        Some(_) => Err(IOError::UnexpectedData),
    }
}

/// A reply that must be a command: an acknowledgement is `UnexpectedNullData`.
pub fn expect_response(reply: Option<CommandFilled>) -> (r: Result<CommandFilled, IOError>)
    ensures
        match reply {
            Some(c) => r == Ok::<CommandFilled, IOError>(c),
            None => r == Err::<CommandFilled, IOError>(IOError::UnexpectedNullData),
        },
{
    match reply {
        Some(c) => Ok(c),
        None => Err(IOError::UnexpectedNullData),
    }
}

/// The request whose answer shows that the MCU is alive: `identify` of no bytes.
pub fn alive_request() -> (c: CommandFilled)
    ensures
        spec_command(c) == (IDENTIFY_ID, seq![ArgValue::Uint32(0), ArgValue::Byte(0)]),
{
    cmd_identify(0, 0)
}

} // verus!
