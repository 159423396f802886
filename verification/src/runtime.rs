//! Printer-level bring-up decisions: how an MCU is powered before the
//! connection is used, which configured axes the CoreXY kinematics drive,
//! and the simulated MCU.
use vstd::prelude::*;
use crate::config::{ConnectionWrapper, CoreXYKinematics, SimMCUConfig};
use crate::error::IOError;
use crate::strutil::str_eq;

verus! {

/// A step of powering an MCU and connecting to it.
pub enum PowerStep {
    /// Open the configured connection.
    Connect,
    /// Take the named pin as an output.
    OpenPin(String),
    /// Drive the pin taken last to this level.
    SetPin(bool),
    /// Wait this many milliseconds.
    Sleep(u32),
    /// Bring the MCU up through its 0xA55A bootloader, resetting it with the
    /// named pin (see `crate::elegoo::Elegoo0xA55A`).
    ElegooBoot(String),
}

/// The value of a power step.
pub enum PowerStepView {
    Connect,
    OpenPin(Seq<char>),
    SetPin(bool),
    Sleep(u32),
    ElegooBoot(Seq<char>),
}

impl View for PowerStep {
    type V = PowerStepView;

    open spec fn view(&self) -> PowerStepView {
        match self {
            PowerStep::Connect => PowerStepView::Connect,
            PowerStep::OpenPin(p) => PowerStepView::OpenPin(p@),
            PowerStep::SetPin(b) => PowerStepView::SetPin(*b),
            PowerStep::Sleep(ms) => PowerStepView::Sleep(*ms),
            PowerStep::ElegooBoot(p) => PowerStepView::ElegooBoot(p@),
        }
    }
}

/// The steps for a wrapper: plain, connect; a held pin, connect then drive
/// the pin high; a pulse, connect, drive the pin low for the pulse, then high;
/// the Elegoo bootloader, its own sequence.
pub open spec fn spec_power_steps(w: ConnectionWrapper) -> Seq<PowerStepView> {
    match w {
        ConnectionWrapper::Plain => seq![PowerStepView::Connect],
        ConnectionWrapper::SetPin { pin } => seq![PowerStepView::Connect, PowerStepView::OpenPin(pin@),
            PowerStepView::SetPin(true)],
        ConnectionWrapper::Pulse { pin, pulse } => seq![PowerStepView::Connect, PowerStepView::OpenPin(pin@),
            PowerStepView::SetPin(false), PowerStepView::Sleep(pulse), PowerStepView::SetPin(true)],
        ConnectionWrapper::ElegooA55A { pin } => seq![PowerStepView::ElegooBoot(pin@)],
    }
}

/// The steps that power the MCU and open its connection, for `wrapper`.
pub fn init_connection_with_wrapper(wrapper: &ConnectionWrapper) -> (r: Vec<PowerStep>)
    ensures
        r@.map_values(|s: PowerStep| s@) == spec_power_steps(*wrapper),
{
    let r = match wrapper {
        ConnectionWrapper::Plain => vec![PowerStep::Connect],
        ConnectionWrapper::SetPin { pin } => vec![
            PowerStep::Connect,
            PowerStep::OpenPin(String::from_str(pin.as_str())),
            PowerStep::SetPin(true),
        ],
        ConnectionWrapper::Pulse { pin, pulse } => vec![
            PowerStep::Connect,
            PowerStep::OpenPin(String::from_str(pin.as_str())),
            PowerStep::SetPin(false),
            PowerStep::Sleep(*pulse),
            PowerStep::SetPin(true),
        ],
        ConnectionWrapper::ElegooA55A { pin } => vec![PowerStep::ElegooBoot(String::from_str(pin.as_str()))],
    };
    assert(r@.map_values(|s: PowerStep| s@) =~= spec_power_steps(*wrapper));
    r
}

/// Why powering an MCU and connecting to it failed.
#[derive(Debug, Clone, PartialEq)]
pub enum MCUError {
    /// The connection could not be opened.
    KlipperConnection(IOError),
    /// The named pin could not be taken.
    Pin(IOError, String),
    /// Bringing the MCU up through its bootloader failed.
    Elegoo0xA55A(IOError),
}

/// What a power step that failed with `e` ends the bring-up with: a failed
/// connection, a pin that could not be taken (with the pin's name), or a
/// failed bootloader bring-up; driving a pin or waiting never ends it (what
/// they give is ignored).
pub fn power_step_error(step: &PowerStep, e: IOError) -> (r: Option<MCUError>)
    ensures
        match step {
            PowerStep::Connect => r matches Some(MCUError::KlipperConnection(x)) && x == e,
            PowerStep::OpenPin(p) => r matches Some(MCUError::Pin(x, q)) && x == e && q@ == p@,
            PowerStep::ElegooBoot(_) => r matches Some(MCUError::Elegoo0xA55A(x)) && x == e,
            PowerStep::SetPin(_) => r is None,
            PowerStep::Sleep(_) => r is None,
        },
{
    match step {
        PowerStep::Connect => Some(MCUError::KlipperConnection(e)),
        PowerStep::OpenPin(p) => Some(MCUError::Pin(e, String::from_str(p.as_str()))),
        PowerStep::ElegooBoot(_) => Some(MCUError::Elegoo0xA55A(e)),
        PowerStep::SetPin(_) => None,
        PowerStep::Sleep(_) => None,
    }
}

/// The first position at or after `i` of `name` among the entries of
/// `names` not yet `taken`, or `names.len()`.
pub open spec fn spec_find_untaken(names: Seq<Seq<char>>, taken: Seq<bool>, name: Seq<char>, i: int) -> int
    decreases names.len() - i,
{
    if i < 0 || i >= names.len() {
        names.len() as int
    } else if !taken[i] && names[i] == name {
        i
    } else {
        spec_find_untaken(names, taken, name, i + 1)
    }
}

/// Takes the axes named by the kinematics, in the order X, Y, Z, extruder,
/// from the configured axes: each is the entry of that name not taken
/// before; the first name without one is the error.
pub open spec fn spec_select_axes(names: Seq<Seq<char>>, wanted: Seq<Seq<char>>) -> Result<Seq<int>, Seq<char>>
    decreases wanted.len(),
{
    spec_select_from(names, Seq::new(names.len(), |i: int| false), wanted)
}

/// See `spec_select_axes`.
pub open spec fn spec_select_from(names: Seq<Seq<char>>, taken: Seq<bool>, wanted: Seq<Seq<char>>) -> Result<Seq<int>, Seq<char>>
    decreases wanted.len(),
{
    if wanted.len() == 0 {
        Ok(Seq::empty())
    } else {
        let k = spec_find_untaken(names, taken, wanted[0], 0);
        if k >= names.len() {
            Err(wanted[0])
        } else {
            match spec_select_from(names, taken.update(k, true), wanted.drop_first()) {
                Ok(rest) => Ok(seq![k] + rest),
                Err(e) => Err(e),
            }
        }
    }
}

/// The names the CoreXY kinematics asks for, in order.
pub open spec fn spec_corexy_names(c: CoreXYKinematics) -> Seq<Seq<char>> {
    seq![c.axis_x@, c.axis_y@, c.axis_z@, c.axis_extruder@]
}

fn find_untaken(names: &Vec<String>, taken: &Vec<bool>, name: &str) -> (r: usize)
    requires
        taken.len() == names.len(),
    ensures
        r == spec_find_untaken(names@.map_values(|s: String| s@), taken@, name@, 0),
{
    let ghost nv = names@.map_values(|s: String| s@);
    let mut i: usize = 0;
    while i < names.len()
        invariant
            i <= names.len(),
            taken.len() == names.len(),
            nv == names@.map_values(|s: String| s@),
            spec_find_untaken(nv, taken@, name@, 0) == spec_find_untaken(nv, taken@, name@, i as int),
        decreases names.len() - i,
    {
        if !taken[i] && str_eq(names[i].as_str(), name) {
            return i;
        }
        i += 1;
    }
    i
}

/// The CoreXY kinematics over the configured axes.
pub struct CoreXYRuntime {
    pub axis_x: usize,
    pub axis_y: usize,
    pub axis_z: usize,
    pub axis_extruder: usize,
}

impl CoreXYRuntime {
    /// Picks the axes of `config` among the configured axes `names`, by
    /// position; the error is the first name that has no axis left.
    pub fn from_config(config: &CoreXYKinematics, names: &Vec<String>) -> (r: Result<CoreXYRuntime, String>)
        ensures
            match spec_select_axes(names@.map_values(|s: String| s@), spec_corexy_names(*config)) {
                Ok(ix) => r matches Ok(c) && c.axis_x == ix[0] && c.axis_y == ix[1]
                    && c.axis_z == ix[2] && c.axis_extruder == ix[3],
                Err(n) => r matches Err(m) && m@ == n,
            },
    {
        let ghost nv = names@.map_values(|s: String| s@);
        let ghost wanted = spec_corexy_names(*config);
        let mut taken: Vec<bool> = Vec::new();
        let mut j: usize = 0;
        while j < names.len()
            invariant
                j <= names.len(),
                taken@ == Seq::new(j as nat, |i: int| false),
            decreases names.len() - j,
        {
            taken.push(false);
            j += 1;
            assert(taken@ =~= Seq::new(j as nat, |i: int| false));
        }
        let ghost t0 = taken@;
        assert(nv.len() == names.len());
        let want: Vec<&str> = vec![config.axis_x.as_str(), config.axis_y.as_str(), config.axis_z.as_str(),
            config.axis_extruder.as_str()];
        assert(want@.map_values(|s: &str| s@) =~= wanted);
        let mut out: Vec<usize> = Vec::new();
        let mut w: usize = 0;
        assert(wanted.subrange(0, 4) =~= wanted);
        assert(spec_select_axes(nv, wanted) == spec_select_from(nv, t0, wanted));
        assert(taken@ =~= t0);
        proof {
            if let Ok(all) = spec_select_from(nv, t0, wanted) {
                assert(out@.map_values(|x: usize| x as int) + all =~= all);
            }
        }
        while w < 4
            invariant
                w <= 4,
                want@.len() == 4,
                want@.map_values(|s: &str| s@) == wanted,
                nv == names@.map_values(|s: String| s@),
                nv.len() == names.len(),
                taken.len() == names.len(),
                out.len() == w,
                t0 == Seq::new(names.len() as nat, |i: int| false),
                wanted == spec_corexy_names(*config),
                spec_select_axes(nv, wanted) == spec_select_from(nv, t0, wanted),
                spec_select_from(nv, t0, wanted) == match spec_select_from(nv, taken@, wanted.subrange(w as int, 4)) {
                    Ok(rest) => Ok(out@.map_values(|x: usize| x as int) + rest),
                    Err(e) => Err::<Seq<int>, Seq<char>>(e),
                },
            decreases 4 - w,
        {
            let ghost rest = wanted.subrange(w as int, 4);
            assert(rest.drop_first() =~= wanted.subrange(w + 1, 4));
            assert(rest[0] == want[w as int]@);
            let k = find_untaken(names, &taken, want[w]);
            if k >= names.len() {
                assert(spec_select_from(nv, taken@, rest) == Err::<Seq<int>, Seq<char>>(rest[0]));
                return Err(String::from_str(want[w]));
            }
            let ghost before = taken@;
            let ghost old_out = out@;
            taken.set(k, true);
            out.push(k);
            proof {
                match spec_select_from(nv, before.update(k as int, true), rest.drop_first()) {
                    Ok(tail) => {
                        assert(out@.map_values(|x: usize| x as int) =~= old_out.map_values(|x: usize| x as int).push(k as int));
                        assert(old_out.map_values(|x: usize| x as int) + (seq![k as int] + tail)
                            =~= out@.map_values(|x: usize| x as int) + tail);
                    },
                    Err(e) => {},
                }
            }
            w += 1;
        }
        assert(wanted.subrange(4, 4) =~= Seq::<Seq<char>>::empty());
        assert(out@.map_values(|x: usize| x as int) + Seq::<int>::empty() =~= out@.map_values(|x: usize| x as int));
        Ok(CoreXYRuntime { axis_x: out[0], axis_y: out[1], axis_z: out[2], axis_extruder: out[3] })
    }
}

/// What every MCU runtime answers.
pub trait MCU {
    /// Whether the MCU answers.
    fn alive(&mut self) -> Result<(), IOError>;
}

/// A simulated MCU: always alive.
pub struct SimMCURuntime {}

impl MCU for SimMCURuntime {
    fn alive(&mut self) -> (r: Result<(), IOError>)
        ensures
            r is Ok,
    {
        Ok(())
    }
}

/// A runtime built from its configuration.
pub trait FromConfig: Sized {
    type ConfigType;

    /// The runtime for `config`, or why it could not be built.
    fn from_config(config: Self::ConfigType) -> Result<Self, String>;
}

impl FromConfig for SimMCURuntime {
    type ConfigType = SimMCUConfig;

    /// A simulated MCU; its configuration has no settings.
    fn from_config(_config: SimMCUConfig) -> (r: Result<SimMCURuntime, String>)
        ensures
            r is Ok,
    {
        Ok(SimMCURuntime {})
    }
}

} // verus!
