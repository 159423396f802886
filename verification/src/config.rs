//! Printer configuration values: how each MCU is reached, how it is
//! powered, its axes, and the kinematics. Durations are in milliseconds;
//! lengths, speeds and accelerations are integers in the runtime's base units.
use vstd::prelude::*;

verus! {

/// Settings that every axis has.
#[derive(Debug, Clone, Copy, Default)]
pub struct GeneralAxisConfig {}

/// An A4988 stepper driver: its pins by name.
#[derive(Debug, Clone)]
pub struct A4988Config {
    pub step_pin: String,
    pub dir_pin: String,
    pub enable_pin: String,
    pub config: GeneralAxisConfig,
}

/// How the host reaches an MCU.
#[derive(Debug, Clone)]
pub enum Connection {
    Serial(SerialConnection),
    Socket(SocketConnection),
    Rpmsg(RpmsgConnection),
}

/// A serial port.
#[derive(Debug, Clone)]
pub struct SerialConnection {
    pub path: String,
    pub baud: u32,
    /// Read timeout, in milliseconds.
    pub timeout: u32,
}

/// A Unix socket.
#[derive(Debug, Clone)]
pub struct SocketConnection {
    pub path: String,
    /// Read timeout, in milliseconds.
    pub timeout: u32,
}

/// An RPMsg channel to a remote processor.
#[derive(Debug, Clone)]
pub struct RpmsgConnection {
    pub ctrl_path: String,
    pub channel_name: String,
    pub remoteproc_state_path: String,
    /// Time to let the channel settle, in milliseconds.
    pub settle: u32,
    /// Read timeout, in milliseconds.
    pub timeout: u32,
}

/// How the host powers the MCU before talking to it.
#[derive(Debug, Clone)]
pub enum ConnectionWrapper {
    Plain,
    SetPin { pin: String },
    /// Drive the pin low for `pulse` milliseconds, then high.
    Pulse { pin: String, pulse: u32 },
    ElegooA55A { pin: String },
}

impl Default for ConnectionWrapper {
    fn default() -> (r: Self)
        ensures
            r is Plain,
    {
        ConnectionWrapper::Plain
    }
}

/// The printer's motion system.
#[derive(Debug, Clone)]
pub enum Kinematics {
    CoreXY(CoreXYKinematics),
}

/// CoreXY kinematics: the limits and the names of the axes it drives.
#[derive(Debug, Clone)]
pub struct CoreXYKinematics {
    pub general: GeneralKinematics,
    pub axis_x: String,
    pub axis_y: String,
    pub axis_z: String,
    pub axis_extruder: String,
}

/// Limits that every kinematics has.
#[derive(Debug, Clone, Copy)]
pub struct GeneralKinematics {
    pub max_velocity: i32,
    pub max_accel: i32,
    pub max_z_velocity: i32,
    pub max_z_accel: i32,
    pub x_range: [i32; 2],
    pub y_range: [i32; 2],
    pub z_range: [i32; 2],
    pub square_corner_velocity: i32,
}

/// A simulated MCU has no settings.
#[derive(Debug, Clone, Copy, Default)]
pub struct SimMCUConfig {}

/// Default of a flag that is on unless turned off.
pub fn default_true() -> (r: bool)
    ensures
        r,
{
    true
}

/// Default number of full steps per motor rotation.
pub fn default_full_steps() -> (r: u16)
    ensures
        r == 200,
{
    200
}

/// Default number of microsteps per full step.
pub fn default_microsteps() -> (r: u16)
    ensures
        r == 16,
{
    16
}

/// Default read timeout of a serial port or socket, in milliseconds.
pub fn default_timeout() -> (r: u32)
    ensures
        r == 100,
{
    100
}

/// Default settle time of an RPMsg channel, in milliseconds.
pub fn default_settle() -> (r: u32)
    ensures
        r == 10,
{
    10
}

/// Default read timeout of an RPMsg channel, in milliseconds.
pub fn default_rpmsg_timeout() -> (r: u32)
    ensures
        r == 100,
{
    100
}

/// Default path of the RPMsg control device.
pub fn default_rpmsg_ctrl_path() -> (r: String)
    ensures
        r@ == "/dev/rpmsg_ctrl-dsp_rproc@0"@,
{
    String::from_str("/dev/rpmsg_ctrl-dsp_rproc@0")
}

/// Default path of the remote processor's state file.
pub fn default_remoteproc_path() -> (r: String)
    ensures
        r@ == "/sys/class/remoteproc/remoteproc0/state"@,
{
    String::from_str("/sys/class/remoteproc/remoteproc0/state")
}

/// Default name of the X axis.
pub fn default_axis_x() -> (r: String)
    ensures
        r@ == "axis_x"@,
{
    String::from_str("axis_x")
}

/// Default name of the Y axis.
pub fn default_axis_y() -> (r: String)
    ensures
        r@ == "axis_y"@,
{
    String::from_str("axis_y")
}

/// Default name of the Z axis.
pub fn default_axis_z() -> (r: String)
    ensures
        r@ == "axis_z"@,
{
    String::from_str("axis_z")
}

/// Default name of the extruder axis.
pub fn default_axis_e() -> (r: String)
    ensures
        r@ == "axis_e"@,
{
    String::from_str("axis_e")
}

/// Default delay before an MCU is started, in milliseconds.
pub fn default_start_duration() -> (r: u32)
    ensures
        r == 0,
{
    0
}

} // verus!
