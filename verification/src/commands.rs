//! The tables of commands the host sends and receives: their names, their
//! static ids (the position in the table) and the kinds of their arguments.
use vstd::prelude::*;
use crate::command::CommandArgOutline;
use crate::strutil::str_eq;

verus! {

/// Number of commands the host can send.
pub const SEND_COMMAND_COUNT: usize = 107;

/// Number of commands the host can receive.
pub const RECV_COMMAND_COUNT: usize = 27;

/// The first index at or after `i` whose name is `name`, or `0xffff`.
pub open spec fn spec_index_of_name(names: Seq<&'static str>, name: Seq<char>, i: int) -> u16
    decreases names.len() - i,
{
    if i < 0 || i >= names.len() {
        0xffff
    } else if names[i]@ == name {
        i as u16
    } else {
        spec_index_of_name(names, name, i + 1)
    }
}

/// The static id of the command called `name` in `names`, or `u16::MAX`.
fn index_of_name(names: &Vec<&'static str>, name: &str) -> (r: u16)
    requires
        names@.len() < 0xffff,
    ensures
        r == spec_index_of_name(names@, name@, 0),
{
    let mut i: usize = 0;
    while i < names.len()
        invariant
            i <= names@.len(),
            names@.len() < 0xffff,
            spec_index_of_name(names@, name@, 0) == spec_index_of_name(names@, name@, i as int),
        decreases names.len() - i,
    {
        if str_eq(names[i], name) {
            return i as u16;
        }
        i += 1;
    }
    0xffff
}

/// Names of the commands, indexed by static id.
pub open spec fn spec_send_names() -> Seq<&'static str> {
    seq!["identify", "allocate_oids", "get_uptime", "get_clock", "get_config", "finalize_config", "clear_shutdown", "emergency_stop", "reset", "config_shutdown_pins", "shutdown_pins_add", "shutdown_pins_set", "config_por", "config_stepper", "queue_step", "set_next_step_dir", "reset_step_clock", "stepper_get_position", "stepper_stop_on_trigger", "config_trsync", "trsync_start", "trsync_set_timeout", "trsync_trigger", "config_digital_out", "set_digital_out", "update_digital_out", "set_digital_out_pwm_cycle", "queue_digital_out", "config_endstop", "endstop_home", "endstop_query_state", "config_buttons", "buttons_add", "buttons_ack", "buttons_query", "config_analog_in", "query_analog_in", "config_counter", "query_counter", "config_spi", "config_spi_without_cs", "spi_set_bus", "spi_set_software_bus", "spi_send", "spi_transfer", "config_spi_shutdown", "config_spi_angle", "query_spi_angle", "spi_angle_transfer", "config_i2c", "i2c_set_bus", "i2c_set_software_bus", "i2c_write", "i2c_read", "i2c_modify_bits", "config_neopixel", "neopixel_update", "neopixel_send", "config_tmcuart", "tmcuart_send", "debug_nop", "debug_ping", "debug_write", "debug_read", "config_hd44780", "hd44780_send_cmds", "hd44780_send_data", "config_st7920", "st7920_send_cmds", "st7920_send_data", "config_load_cell_endstop", "config_load_cell_endstop_with_pin", "load_cell_endstop_home", "load_cell_endstop_query_state", "set_range_load_cell_endstop", "attach_endstop_hx71x", "attach_endstop_cs123x", "config_sos_filter", "config_sos_filter_section", "config_hx71x", "query_hx71x", "query_hx71x_status", "config_cs123x", "cs123x_read", "cs123x_write", "query_cs123x", "query_cs123x_status", "config_ads1220", "query_ads1220", "query_ads1220_status", "config_thermocouple", "query_thermocouple", "config_ldc1612", "config_ldc1612_with_intb", "ldc1612_setup_home", "query_ldc1612", "query_ldc1612_home_state", "query_status_ldc1612", "config_adxl345", "query_adxl345", "query_adxl345_status", "config_lis2dw", "query_lis2dw", "query_lis2dw_status", "config_mpu9250", "query_mpu9250", "query_mpu9250_status"]
}

/// Names of the commands, indexed by static id.
pub fn send_command_names() -> (v: Vec<&'static str>)
    ensures
        v@ == spec_send_names(),
{
    let v: Vec<&'static str> = vec!["identify", "allocate_oids", "get_uptime", "get_clock", "get_config", "finalize_config", "clear_shutdown", "emergency_stop", "reset", "config_shutdown_pins", "shutdown_pins_add", "shutdown_pins_set", "config_por", "config_stepper", "queue_step", "set_next_step_dir", "reset_step_clock", "stepper_get_position", "stepper_stop_on_trigger", "config_trsync", "trsync_start", "trsync_set_timeout", "trsync_trigger", "config_digital_out", "set_digital_out", "update_digital_out", "set_digital_out_pwm_cycle", "queue_digital_out", "config_endstop", "endstop_home", "endstop_query_state", "config_buttons", "buttons_add", "buttons_ack", "buttons_query", "config_analog_in", "query_analog_in", "config_counter", "query_counter", "config_spi", "config_spi_without_cs", "spi_set_bus", "spi_set_software_bus", "spi_send", "spi_transfer", "config_spi_shutdown", "config_spi_angle", "query_spi_angle", "spi_angle_transfer", "config_i2c", "i2c_set_bus", "i2c_set_software_bus", "i2c_write", "i2c_read", "i2c_modify_bits", "config_neopixel", "neopixel_update", "neopixel_send", "config_tmcuart", "tmcuart_send", "debug_nop", "debug_ping", "debug_write", "debug_read", "config_hd44780", "hd44780_send_cmds", "hd44780_send_data", "config_st7920", "st7920_send_cmds", "st7920_send_data", "config_load_cell_endstop", "config_load_cell_endstop_with_pin", "load_cell_endstop_home", "load_cell_endstop_query_state", "set_range_load_cell_endstop", "attach_endstop_hx71x", "attach_endstop_cs123x", "config_sos_filter", "config_sos_filter_section", "config_hx71x", "query_hx71x", "query_hx71x_status", "config_cs123x", "cs123x_read", "cs123x_write", "query_cs123x", "query_cs123x_status", "config_ads1220", "query_ads1220", "query_ads1220_status", "config_thermocouple", "query_thermocouple", "config_ldc1612", "config_ldc1612_with_intb", "ldc1612_setup_home", "query_ldc1612", "query_ldc1612_home_state", "query_status_ldc1612", "config_adxl345", "query_adxl345", "query_adxl345_status", "config_lis2dw", "query_lis2dw", "query_lis2dw_status", "config_mpu9250", "query_mpu9250", "query_mpu9250_status"];
    assert(v@ =~= spec_send_names());
    v
}

/// Static id of the command called `name`, or `u16::MAX` when there is none.
pub fn send_command_id_for_name(name: &str) -> (r: u16)
    ensures
        r == spec_index_of_name(spec_send_names(), name@, 0),
{
    let names = send_command_names();
    index_of_name(&names, name)
}

/// Kinds of the arguments of the command with static id `id`, in order.
pub open spec fn spec_send_args(id: int) -> Seq<CommandArgOutline> {
    if id == 0 {
        seq![CommandArgOutline::uint32, CommandArgOutline::byte]
    } else if id == 1 {
        seq![CommandArgOutline::byte]
    } else if id == 2 {
        seq![]
    } else if id == 3 {
        seq![]
    } else if id == 4 {
        seq![]
    } else if id == 5 {
        seq![CommandArgOutline::uint32]
    } else if id == 6 {
        seq![]
    } else if id == 7 {
        seq![]
    } else if id == 8 {
        seq![]
    } else if id == 9 {
        seq![CommandArgOutline::byte]
    } else if id == 10 {
        seq![CommandArgOutline::byte, CommandArgOutline::byte, CommandArgOutline::byte]
    } else if id == 11 {
        seq![CommandArgOutline::byte]
    } else if id == 12 {
        seq![CommandArgOutline::byte, CommandArgOutline::byte, CommandArgOutline::byte, CommandArgOutline::byte, CommandArgOutline::byte, CommandArgOutline::uint32, CommandArgOutline::byte, CommandArgOutline::uint32]
    } else if id == 13 {
        seq![CommandArgOutline::byte, CommandArgOutline::byte, CommandArgOutline::byte, CommandArgOutline::byte, CommandArgOutline::uint32]
    } else if id == 14 {
        seq![CommandArgOutline::byte, CommandArgOutline::uint32, CommandArgOutline::uint16, CommandArgOutline::int16]
    } else if id == 15 {
        seq![CommandArgOutline::byte, CommandArgOutline::byte]
    } else if id == 16 {
        seq![CommandArgOutline::byte, CommandArgOutline::uint32]
    } else if id == 17 {
        seq![CommandArgOutline::byte]
    } else if id == 18 {
        seq![CommandArgOutline::byte, CommandArgOutline::byte]
    } else if id == 19 {
        seq![CommandArgOutline::byte]
    } else if id == 20 {
        seq![CommandArgOutline::byte, CommandArgOutline::uint32, CommandArgOutline::uint32, CommandArgOutline::byte]
    } else if id == 21 {
        seq![CommandArgOutline::byte, CommandArgOutline::uint32]
    } else if id == 22 {
        seq![CommandArgOutline::byte, CommandArgOutline::byte]
    } else if id == 23 {
        seq![CommandArgOutline::byte, CommandArgOutline::uint32, CommandArgOutline::byte, CommandArgOutline::byte, CommandArgOutline::uint32]
    } else if id == 24 {
        seq![CommandArgOutline::uint32, CommandArgOutline::byte]
    } else if id == 25 {
        seq![CommandArgOutline::byte, CommandArgOutline::byte]
    } else if id == 26 {
        seq![CommandArgOutline::byte, CommandArgOutline::uint32]
    } else if id == 27 {
        seq![CommandArgOutline::byte, CommandArgOutline::uint32, CommandArgOutline::uint32]
    } else if id == 28 {
        seq![CommandArgOutline::byte, CommandArgOutline::byte, CommandArgOutline::byte]
    } else if id == 29 {
        seq![CommandArgOutline::byte, CommandArgOutline::uint32, CommandArgOutline::uint32, CommandArgOutline::byte, CommandArgOutline::uint32, CommandArgOutline::byte, CommandArgOutline::byte, CommandArgOutline::byte]
    } else if id == 30 {
        seq![CommandArgOutline::byte]
    } else if id == 31 {
        seq![CommandArgOutline::byte, CommandArgOutline::byte]
    } else if id == 32 {
        seq![CommandArgOutline::byte, CommandArgOutline::byte, CommandArgOutline::uint32, CommandArgOutline::byte]
    } else if id == 33 {
        seq![CommandArgOutline::byte, CommandArgOutline::byte]
    } else if id == 34 {
        seq![CommandArgOutline::byte, CommandArgOutline::uint32, CommandArgOutline::uint32, CommandArgOutline::byte, CommandArgOutline::byte]
    } else if id == 35 {
        seq![CommandArgOutline::byte, CommandArgOutline::uint32]
    } else if id == 36 {
        seq![CommandArgOutline::byte, CommandArgOutline::uint32, CommandArgOutline::uint32, CommandArgOutline::byte, CommandArgOutline::uint32, CommandArgOutline::uint16, CommandArgOutline::uint16, CommandArgOutline::byte]
    } else if id == 37 {
        seq![CommandArgOutline::byte, CommandArgOutline::uint32, CommandArgOutline::byte]
    } else if id == 38 {
        seq![CommandArgOutline::byte, CommandArgOutline::uint32, CommandArgOutline::uint32, CommandArgOutline::uint32]
    } else if id == 39 {
        seq![CommandArgOutline::byte, CommandArgOutline::uint32, CommandArgOutline::byte]
    } else if id == 40 {
        seq![CommandArgOutline::byte]
    } else if id == 41 {
        seq![CommandArgOutline::byte, CommandArgOutline::uint32, CommandArgOutline::uint32, CommandArgOutline::uint32]
    } else if id == 42 {
        seq![CommandArgOutline::byte, CommandArgOutline::uint32, CommandArgOutline::uint32, CommandArgOutline::uint32, CommandArgOutline::uint32, CommandArgOutline::uint32]
    } else if id == 43 {
        seq![CommandArgOutline::byte, CommandArgOutline::buffer]
    } else if id == 44 {
        seq![CommandArgOutline::byte, CommandArgOutline::buffer]
    } else if id == 45 {
        seq![CommandArgOutline::byte, CommandArgOutline::byte, CommandArgOutline::buffer]
    } else if id == 46 {
        seq![CommandArgOutline::byte, CommandArgOutline::byte, CommandArgOutline::byte]
    } else if id == 47 {
        seq![CommandArgOutline::byte, CommandArgOutline::uint32, CommandArgOutline::uint32, CommandArgOutline::byte]
    } else if id == 48 {
        seq![CommandArgOutline::byte, CommandArgOutline::buffer]
    } else if id == 49 {
        seq![CommandArgOutline::byte]
    } else if id == 50 {
        seq![CommandArgOutline::byte, CommandArgOutline::uint32, CommandArgOutline::uint32, CommandArgOutline::uint32]
    } else if id == 51 {
        seq![CommandArgOutline::byte, CommandArgOutline::uint32, CommandArgOutline::uint32, CommandArgOutline::uint32, CommandArgOutline::uint32]
    } else if id == 52 {
        seq![CommandArgOutline::byte, CommandArgOutline::buffer]
    } else if id == 53 {
        seq![CommandArgOutline::byte, CommandArgOutline::buffer, CommandArgOutline::uint32]
    } else if id == 54 {
        seq![CommandArgOutline::byte, CommandArgOutline::buffer, CommandArgOutline::buffer]
    } else if id == 55 {
        seq![CommandArgOutline::byte, CommandArgOutline::uint32, CommandArgOutline::uint16, CommandArgOutline::uint32, CommandArgOutline::uint32]
    } else if id == 56 {
        seq![CommandArgOutline::byte, CommandArgOutline::uint16, CommandArgOutline::buffer]
    } else if id == 57 {
        seq![CommandArgOutline::byte]
    } else if id == 58 {
        seq![CommandArgOutline::byte, CommandArgOutline::uint32, CommandArgOutline::byte, CommandArgOutline::uint32, CommandArgOutline::uint32]
    } else if id == 59 {
        seq![CommandArgOutline::byte, CommandArgOutline::buffer, CommandArgOutline::byte]
    } else if id == 60 {
        seq![]
    } else if id == 61 {
        seq![CommandArgOutline::buffer]
    } else if id == 62 {
        seq![CommandArgOutline::byte, CommandArgOutline::uint32, CommandArgOutline::uint32]
    } else if id == 63 {
        seq![CommandArgOutline::byte, CommandArgOutline::uint32]
    } else if id == 64 {
        seq![CommandArgOutline::byte, CommandArgOutline::uint32, CommandArgOutline::uint32, CommandArgOutline::uint32, CommandArgOutline::uint32, CommandArgOutline::uint32, CommandArgOutline::uint32, CommandArgOutline::uint32]
    } else if id == 65 {
        seq![CommandArgOutline::byte, CommandArgOutline::buffer]
    } else if id == 66 {
        seq![CommandArgOutline::byte, CommandArgOutline::buffer]
    } else if id == 67 {
        seq![CommandArgOutline::byte, CommandArgOutline::uint32, CommandArgOutline::uint32, CommandArgOutline::uint32, CommandArgOutline::uint32, CommandArgOutline::uint32]
    } else if id == 68 {
        seq![CommandArgOutline::byte, CommandArgOutline::buffer]
    } else if id == 69 {
        seq![CommandArgOutline::byte, CommandArgOutline::buffer]
    } else if id == 70 {
        seq![CommandArgOutline::byte, CommandArgOutline::byte]
    } else if id == 71 {
        seq![CommandArgOutline::byte, CommandArgOutline::byte, CommandArgOutline::uint32]
    } else if id == 72 {
        seq![CommandArgOutline::byte, CommandArgOutline::byte, CommandArgOutline::byte, CommandArgOutline::byte, CommandArgOutline::uint32, CommandArgOutline::byte, CommandArgOutline::uint32, CommandArgOutline::uint32]
    } else if id == 73 {
        seq![CommandArgOutline::byte]
    } else if id == 74 {
        seq![CommandArgOutline::byte, CommandArgOutline::int32, CommandArgOutline::int32, CommandArgOutline::int32, CommandArgOutline::uint32, CommandArgOutline::int32]
    } else if id == 75 {
        seq![CommandArgOutline::byte, CommandArgOutline::byte]
    } else if id == 76 {
        seq![CommandArgOutline::byte, CommandArgOutline::byte]
    } else if id == 77 {
        seq![CommandArgOutline::byte]
    } else if id == 78 {
        seq![CommandArgOutline::byte, CommandArgOutline::byte, CommandArgOutline::byte, CommandArgOutline::int32, CommandArgOutline::int32, CommandArgOutline::int32, CommandArgOutline::int32, CommandArgOutline::int32]
    } else if id == 79 {
        seq![CommandArgOutline::byte, CommandArgOutline::byte, CommandArgOutline::uint32, CommandArgOutline::uint32]
    } else if id == 80 {
        seq![CommandArgOutline::byte, CommandArgOutline::uint32]
    } else if id == 81 {
        seq![CommandArgOutline::byte]
    } else if id == 82 {
        seq![CommandArgOutline::byte, CommandArgOutline::uint32, CommandArgOutline::uint32]
    } else if id == 83 {
        seq![CommandArgOutline::byte]
    } else if id == 84 {
        seq![CommandArgOutline::byte, CommandArgOutline::byte]
    } else if id == 85 {
        seq![CommandArgOutline::byte, CommandArgOutline::uint32]
    } else if id == 86 {
        seq![CommandArgOutline::byte]
    } else if id == 87 {
        seq![CommandArgOutline::byte, CommandArgOutline::byte, CommandArgOutline::uint32]
    } else if id == 88 {
        seq![CommandArgOutline::byte, CommandArgOutline::uint32]
    } else if id == 89 {
        seq![CommandArgOutline::byte]
    } else if id == 90 {
        seq![CommandArgOutline::byte, CommandArgOutline::byte, CommandArgOutline::byte]
    } else if id == 91 {
        seq![CommandArgOutline::byte, CommandArgOutline::uint32, CommandArgOutline::uint32, CommandArgOutline::uint32, CommandArgOutline::uint32, CommandArgOutline::byte]
    } else if id == 92 {
        seq![CommandArgOutline::byte, CommandArgOutline::byte]
    } else if id == 93 {
        seq![CommandArgOutline::byte, CommandArgOutline::byte, CommandArgOutline::byte]
    } else if id == 94 {
        seq![CommandArgOutline::byte, CommandArgOutline::uint32, CommandArgOutline::uint32, CommandArgOutline::byte, CommandArgOutline::byte, CommandArgOutline::byte]
    } else if id == 95 {
        seq![CommandArgOutline::byte, CommandArgOutline::uint32]
    } else if id == 96 {
        seq![CommandArgOutline::byte]
    } else if id == 97 {
        seq![CommandArgOutline::byte]
    } else if id == 98 {
        seq![CommandArgOutline::byte, CommandArgOutline::byte]
    } else if id == 99 {
        seq![CommandArgOutline::byte, CommandArgOutline::uint32]
    } else if id == 100 {
        seq![CommandArgOutline::byte]
    } else if id == 101 {
        seq![CommandArgOutline::byte, CommandArgOutline::byte]
    } else if id == 102 {
        seq![CommandArgOutline::byte, CommandArgOutline::uint32]
    } else if id == 103 {
        seq![CommandArgOutline::byte]
    } else if id == 104 {
        seq![CommandArgOutline::byte, CommandArgOutline::byte]
    } else if id == 105 {
        seq![CommandArgOutline::byte, CommandArgOutline::uint32]
    } else if id == 106 {
        seq![CommandArgOutline::byte]
    } else {
        seq![]
    }
}

/// Kinds of the arguments of the command with static id `id`, in order.
pub fn send_command_args(id: u16) -> (v: Vec<CommandArgOutline>)
    ensures
        v@ == spec_send_args(id as int),
{
    let v: Vec<CommandArgOutline> = match id {
        0 => vec![CommandArgOutline::uint32, CommandArgOutline::byte],
        1 => vec![CommandArgOutline::byte],
        2 => Vec::new(),
        3 => Vec::new(),
        4 => Vec::new(),
        5 => vec![CommandArgOutline::uint32],
        6 => Vec::new(),
        7 => Vec::new(),
        8 => Vec::new(),
        9 => vec![CommandArgOutline::byte],
        10 => vec![CommandArgOutline::byte, CommandArgOutline::byte, CommandArgOutline::byte],
        11 => vec![CommandArgOutline::byte],
        12 => vec![CommandArgOutline::byte, CommandArgOutline::byte, CommandArgOutline::byte, CommandArgOutline::byte, CommandArgOutline::byte, CommandArgOutline::uint32, CommandArgOutline::byte, CommandArgOutline::uint32],
        13 => vec![CommandArgOutline::byte, CommandArgOutline::byte, CommandArgOutline::byte, CommandArgOutline::byte, CommandArgOutline::uint32],
        14 => vec![CommandArgOutline::byte, CommandArgOutline::uint32, CommandArgOutline::uint16, CommandArgOutline::int16],
        15 => vec![CommandArgOutline::byte, CommandArgOutline::byte],
        16 => vec![CommandArgOutline::byte, CommandArgOutline::uint32],
        17 => vec![CommandArgOutline::byte],
        18 => vec![CommandArgOutline::byte, CommandArgOutline::byte],
        19 => vec![CommandArgOutline::byte],
        20 => vec![CommandArgOutline::byte, CommandArgOutline::uint32, CommandArgOutline::uint32, CommandArgOutline::byte],
        21 => vec![CommandArgOutline::byte, CommandArgOutline::uint32],
        22 => vec![CommandArgOutline::byte, CommandArgOutline::byte],
        23 => vec![CommandArgOutline::byte, CommandArgOutline::uint32, CommandArgOutline::byte, CommandArgOutline::byte, CommandArgOutline::uint32],
        24 => vec![CommandArgOutline::uint32, CommandArgOutline::byte],
        25 => vec![CommandArgOutline::byte, CommandArgOutline::byte],
        26 => vec![CommandArgOutline::byte, CommandArgOutline::uint32],
        27 => vec![CommandArgOutline::byte, CommandArgOutline::uint32, CommandArgOutline::uint32],
        28 => vec![CommandArgOutline::byte, CommandArgOutline::byte, CommandArgOutline::byte],
        29 => vec![CommandArgOutline::byte, CommandArgOutline::uint32, CommandArgOutline::uint32, CommandArgOutline::byte, CommandArgOutline::uint32, CommandArgOutline::byte, CommandArgOutline::byte, CommandArgOutline::byte],
        30 => vec![CommandArgOutline::byte],
        31 => vec![CommandArgOutline::byte, CommandArgOutline::byte],
        32 => vec![CommandArgOutline::byte, CommandArgOutline::byte, CommandArgOutline::uint32, CommandArgOutline::byte],
        33 => vec![CommandArgOutline::byte, CommandArgOutline::byte],
        34 => vec![CommandArgOutline::byte, CommandArgOutline::uint32, CommandArgOutline::uint32, CommandArgOutline::byte, CommandArgOutline::byte],
        35 => vec![CommandArgOutline::byte, CommandArgOutline::uint32],
        36 => vec![CommandArgOutline::byte, CommandArgOutline::uint32, CommandArgOutline::uint32, CommandArgOutline::byte, CommandArgOutline::uint32, CommandArgOutline::uint16, CommandArgOutline::uint16, CommandArgOutline::byte],
        37 => vec![CommandArgOutline::byte, CommandArgOutline::uint32, CommandArgOutline::byte],
        38 => vec![CommandArgOutline::byte, CommandArgOutline::uint32, CommandArgOutline::uint32, CommandArgOutline::uint32],
        39 => vec![CommandArgOutline::byte, CommandArgOutline::uint32, CommandArgOutline::byte],
        40 => vec![CommandArgOutline::byte],
        41 => vec![CommandArgOutline::byte, CommandArgOutline::uint32, CommandArgOutline::uint32, CommandArgOutline::uint32],
        42 => vec![CommandArgOutline::byte, CommandArgOutline::uint32, CommandArgOutline::uint32, CommandArgOutline::uint32, CommandArgOutline::uint32, CommandArgOutline::uint32],
        43 => vec![CommandArgOutline::byte, CommandArgOutline::buffer],
        44 => vec![CommandArgOutline::byte, CommandArgOutline::buffer],
        45 => vec![CommandArgOutline::byte, CommandArgOutline::byte, CommandArgOutline::buffer],
        46 => vec![CommandArgOutline::byte, CommandArgOutline::byte, CommandArgOutline::byte],
        47 => vec![CommandArgOutline::byte, CommandArgOutline::uint32, CommandArgOutline::uint32, CommandArgOutline::byte],
        48 => vec![CommandArgOutline::byte, CommandArgOutline::buffer],
        49 => vec![CommandArgOutline::byte],
        50 => vec![CommandArgOutline::byte, CommandArgOutline::uint32, CommandArgOutline::uint32, CommandArgOutline::uint32],
        51 => vec![CommandArgOutline::byte, CommandArgOutline::uint32, CommandArgOutline::uint32, CommandArgOutline::uint32, CommandArgOutline::uint32],
        52 => vec![CommandArgOutline::byte, CommandArgOutline::buffer],
        53 => vec![CommandArgOutline::byte, CommandArgOutline::buffer, CommandArgOutline::uint32],
        54 => vec![CommandArgOutline::byte, CommandArgOutline::buffer, CommandArgOutline::buffer],
        55 => vec![CommandArgOutline::byte, CommandArgOutline::uint32, CommandArgOutline::uint16, CommandArgOutline::uint32, CommandArgOutline::uint32],
        56 => vec![CommandArgOutline::byte, CommandArgOutline::uint16, CommandArgOutline::buffer],
        57 => vec![CommandArgOutline::byte],
        58 => vec![CommandArgOutline::byte, CommandArgOutline::uint32, CommandArgOutline::byte, CommandArgOutline::uint32, CommandArgOutline::uint32],
        59 => vec![CommandArgOutline::byte, CommandArgOutline::buffer, CommandArgOutline::byte],
        60 => Vec::new(),
        61 => vec![CommandArgOutline::buffer],
        62 => vec![CommandArgOutline::byte, CommandArgOutline::uint32, CommandArgOutline::uint32],
        63 => vec![CommandArgOutline::byte, CommandArgOutline::uint32],
        64 => vec![CommandArgOutline::byte, CommandArgOutline::uint32, CommandArgOutline::uint32, CommandArgOutline::uint32, CommandArgOutline::uint32, CommandArgOutline::uint32, CommandArgOutline::uint32, CommandArgOutline::uint32],
        65 => vec![CommandArgOutline::byte, CommandArgOutline::buffer],
        66 => vec![CommandArgOutline::byte, CommandArgOutline::buffer],
        67 => vec![CommandArgOutline::byte, CommandArgOutline::uint32, CommandArgOutline::uint32, CommandArgOutline::uint32, CommandArgOutline::uint32, CommandArgOutline::uint32],
        68 => vec![CommandArgOutline::byte, CommandArgOutline::buffer],
        69 => vec![CommandArgOutline::byte, CommandArgOutline::buffer],
        70 => vec![CommandArgOutline::byte, CommandArgOutline::byte],
        71 => vec![CommandArgOutline::byte, CommandArgOutline::byte, CommandArgOutline::uint32],
        72 => vec![CommandArgOutline::byte, CommandArgOutline::byte, CommandArgOutline::byte, CommandArgOutline::byte, CommandArgOutline::uint32, CommandArgOutline::byte, CommandArgOutline::uint32, CommandArgOutline::uint32],
        73 => vec![CommandArgOutline::byte],
        74 => vec![CommandArgOutline::byte, CommandArgOutline::int32, CommandArgOutline::int32, CommandArgOutline::int32, CommandArgOutline::uint32, CommandArgOutline::int32],
        75 => vec![CommandArgOutline::byte, CommandArgOutline::byte],
        76 => vec![CommandArgOutline::byte, CommandArgOutline::byte],
        77 => vec![CommandArgOutline::byte],
        78 => vec![CommandArgOutline::byte, CommandArgOutline::byte, CommandArgOutline::byte, CommandArgOutline::int32, CommandArgOutline::int32, CommandArgOutline::int32, CommandArgOutline::int32, CommandArgOutline::int32],
        79 => vec![CommandArgOutline::byte, CommandArgOutline::byte, CommandArgOutline::uint32, CommandArgOutline::uint32],
        80 => vec![CommandArgOutline::byte, CommandArgOutline::uint32],
        81 => vec![CommandArgOutline::byte],
        82 => vec![CommandArgOutline::byte, CommandArgOutline::uint32, CommandArgOutline::uint32],
        83 => vec![CommandArgOutline::byte],
        84 => vec![CommandArgOutline::byte, CommandArgOutline::byte],
        85 => vec![CommandArgOutline::byte, CommandArgOutline::uint32],
        86 => vec![CommandArgOutline::byte],
        87 => vec![CommandArgOutline::byte, CommandArgOutline::byte, CommandArgOutline::uint32],
        88 => vec![CommandArgOutline::byte, CommandArgOutline::uint32],
        89 => vec![CommandArgOutline::byte],
        90 => vec![CommandArgOutline::byte, CommandArgOutline::byte, CommandArgOutline::byte],
        91 => vec![CommandArgOutline::byte, CommandArgOutline::uint32, CommandArgOutline::uint32, CommandArgOutline::uint32, CommandArgOutline::uint32, CommandArgOutline::byte],
        92 => vec![CommandArgOutline::byte, CommandArgOutline::byte],
        93 => vec![CommandArgOutline::byte, CommandArgOutline::byte, CommandArgOutline::byte],
        94 => vec![CommandArgOutline::byte, CommandArgOutline::uint32, CommandArgOutline::uint32, CommandArgOutline::byte, CommandArgOutline::byte, CommandArgOutline::byte],
        95 => vec![CommandArgOutline::byte, CommandArgOutline::uint32],
        96 => vec![CommandArgOutline::byte],
        97 => vec![CommandArgOutline::byte],
        98 => vec![CommandArgOutline::byte, CommandArgOutline::byte],
        99 => vec![CommandArgOutline::byte, CommandArgOutline::uint32],
        100 => vec![CommandArgOutline::byte],
        101 => vec![CommandArgOutline::byte, CommandArgOutline::byte],
        102 => vec![CommandArgOutline::byte, CommandArgOutline::uint32],
        103 => vec![CommandArgOutline::byte],
        104 => vec![CommandArgOutline::byte, CommandArgOutline::byte],
        105 => vec![CommandArgOutline::byte, CommandArgOutline::uint32],
        106 => vec![CommandArgOutline::byte],
        _ => Vec::new(),
    };
    assert(v@ =~= spec_send_args(id as int));
    v
}

/// Names of the commands, indexed by static id.
pub open spec fn spec_recv_names() -> Seq<&'static str> {
    seq!["identify_response", "clock", "uptime", "config", "pong", "starting", "is_shutdown", "shutdown", "stepper_position", "trsync_state", "endstop_state", "buttons_state", "analog_in_state", "counter_state", "spi_transfer_response", "spi_angle_transfer_response", "i2c_read_response", "tmcuart_response", "neopixel_result", "debug_result", "stats", "load_cell_endstop_state", "sensor_bulk_data", "sensor_bulk_status", "cs123x_read_response", "ldc1612_home_state", "thermocouple_result"]
}

/// Names of the commands, indexed by static id.
pub fn recv_command_names() -> (v: Vec<&'static str>)
    ensures
        v@ == spec_recv_names(),
{
    let v: Vec<&'static str> = vec!["identify_response", "clock", "uptime", "config", "pong", "starting", "is_shutdown", "shutdown", "stepper_position", "trsync_state", "endstop_state", "buttons_state", "analog_in_state", "counter_state", "spi_transfer_response", "spi_angle_transfer_response", "i2c_read_response", "tmcuart_response", "neopixel_result", "debug_result", "stats", "load_cell_endstop_state", "sensor_bulk_data", "sensor_bulk_status", "cs123x_read_response", "ldc1612_home_state", "thermocouple_result"];
    assert(v@ =~= spec_recv_names());
    v
}

/// Static id of the command called `name`, or `u16::MAX` when there is none.
pub fn recv_command_id_for_name(name: &str) -> (r: u16)
    ensures
        r == spec_index_of_name(spec_recv_names(), name@, 0),
{
    let names = recv_command_names();
    index_of_name(&names, name)
}

/// Kinds of the arguments of the command with static id `id`, in order.
pub open spec fn spec_recv_args(id: int) -> Seq<CommandArgOutline> {
    if id == 0 {
        seq![CommandArgOutline::uint32, CommandArgOutline::buffer]
    } else if id == 1 {
        seq![CommandArgOutline::uint32]
    } else if id == 2 {
        seq![CommandArgOutline::uint32, CommandArgOutline::uint32]
    } else if id == 3 {
        seq![CommandArgOutline::byte, CommandArgOutline::uint32, CommandArgOutline::byte, CommandArgOutline::uint16]
    } else if id == 4 {
        seq![CommandArgOutline::buffer]
    } else if id == 5 {
        seq![]
    } else if id == 6 {
        seq![CommandArgOutline::uint16]
    } else if id == 7 {
        seq![CommandArgOutline::uint32, CommandArgOutline::uint16]
    } else if id == 8 {
        seq![CommandArgOutline::byte, CommandArgOutline::int32]
    } else if id == 9 {
        seq![CommandArgOutline::byte, CommandArgOutline::byte, CommandArgOutline::byte, CommandArgOutline::uint32]
    } else if id == 10 {
        seq![CommandArgOutline::byte, CommandArgOutline::byte, CommandArgOutline::uint32, CommandArgOutline::byte]
    } else if id == 11 {
        seq![CommandArgOutline::byte, CommandArgOutline::byte, CommandArgOutline::buffer]
    } else if id == 12 {
        seq![CommandArgOutline::byte, CommandArgOutline::uint32, CommandArgOutline::uint16]
    } else if id == 13 {
        seq![CommandArgOutline::byte, CommandArgOutline::uint32, CommandArgOutline::uint32, CommandArgOutline::uint32]
    } else if id == 14 {
        seq![CommandArgOutline::byte, CommandArgOutline::buffer]
    } else if id == 15 {
        seq![CommandArgOutline::byte, CommandArgOutline::uint32, CommandArgOutline::buffer]
    } else if id == 16 {
        seq![CommandArgOutline::byte, CommandArgOutline::buffer]
    } else if id == 17 {
        seq![CommandArgOutline::byte, CommandArgOutline::buffer]
    } else if id == 18 {
        seq![CommandArgOutline::byte, CommandArgOutline::byte]
    } else if id == 19 {
        seq![CommandArgOutline::uint32]
    } else if id == 20 {
        seq![CommandArgOutline::uint32, CommandArgOutline::uint32, CommandArgOutline::uint32]
    } else if id == 21 {
        seq![CommandArgOutline::byte, CommandArgOutline::byte, CommandArgOutline::byte, CommandArgOutline::byte, CommandArgOutline::uint32, CommandArgOutline::uint32, CommandArgOutline::int32, CommandArgOutline::int32, CommandArgOutline::int32, CommandArgOutline::uint32, CommandArgOutline::byte]
    } else if id == 22 {
        seq![CommandArgOutline::byte, CommandArgOutline::uint16, CommandArgOutline::buffer]
    } else if id == 23 {
        seq![CommandArgOutline::byte, CommandArgOutline::uint32, CommandArgOutline::uint32, CommandArgOutline::uint16, CommandArgOutline::uint32, CommandArgOutline::uint16]
    } else if id == 24 {
        seq![CommandArgOutline::byte, CommandArgOutline::byte]
    } else if id == 25 {
        seq![CommandArgOutline::byte, CommandArgOutline::byte, CommandArgOutline::uint32]
    } else if id == 26 {
        seq![CommandArgOutline::byte, CommandArgOutline::uint32, CommandArgOutline::uint32, CommandArgOutline::byte]
    } else {
        seq![]
    }
}

/// Kinds of the arguments of the command with static id `id`, in order.
pub fn recv_command_args(id: u16) -> (v: Vec<CommandArgOutline>)
    ensures
        v@ == spec_recv_args(id as int),
{
    let v: Vec<CommandArgOutline> = match id {
        0 => vec![CommandArgOutline::uint32, CommandArgOutline::buffer],
        1 => vec![CommandArgOutline::uint32],
        2 => vec![CommandArgOutline::uint32, CommandArgOutline::uint32],
        3 => vec![CommandArgOutline::byte, CommandArgOutline::uint32, CommandArgOutline::byte, CommandArgOutline::uint16],
        4 => vec![CommandArgOutline::buffer],
        5 => Vec::new(),
        6 => vec![CommandArgOutline::uint16],
        7 => vec![CommandArgOutline::uint32, CommandArgOutline::uint16],
        8 => vec![CommandArgOutline::byte, CommandArgOutline::int32],
        9 => vec![CommandArgOutline::byte, CommandArgOutline::byte, CommandArgOutline::byte, CommandArgOutline::uint32],
        10 => vec![CommandArgOutline::byte, CommandArgOutline::byte, CommandArgOutline::uint32, CommandArgOutline::byte],
        11 => vec![CommandArgOutline::byte, CommandArgOutline::byte, CommandArgOutline::buffer],
        12 => vec![CommandArgOutline::byte, CommandArgOutline::uint32, CommandArgOutline::uint16],
        13 => vec![CommandArgOutline::byte, CommandArgOutline::uint32, CommandArgOutline::uint32, CommandArgOutline::uint32],
        14 => vec![CommandArgOutline::byte, CommandArgOutline::buffer],
        15 => vec![CommandArgOutline::byte, CommandArgOutline::uint32, CommandArgOutline::buffer],
        16 => vec![CommandArgOutline::byte, CommandArgOutline::buffer],
        17 => vec![CommandArgOutline::byte, CommandArgOutline::buffer],
        18 => vec![CommandArgOutline::byte, CommandArgOutline::byte],
        19 => vec![CommandArgOutline::uint32],
        20 => vec![CommandArgOutline::uint32, CommandArgOutline::uint32, CommandArgOutline::uint32],
        21 => vec![CommandArgOutline::byte, CommandArgOutline::byte, CommandArgOutline::byte, CommandArgOutline::byte, CommandArgOutline::uint32, CommandArgOutline::uint32, CommandArgOutline::int32, CommandArgOutline::int32, CommandArgOutline::int32, CommandArgOutline::uint32, CommandArgOutline::byte],
        22 => vec![CommandArgOutline::byte, CommandArgOutline::uint16, CommandArgOutline::buffer],
        23 => vec![CommandArgOutline::byte, CommandArgOutline::uint32, CommandArgOutline::uint32, CommandArgOutline::uint16, CommandArgOutline::uint32, CommandArgOutline::uint16],
        24 => vec![CommandArgOutline::byte, CommandArgOutline::byte],
        25 => vec![CommandArgOutline::byte, CommandArgOutline::byte, CommandArgOutline::uint32],
        26 => vec![CommandArgOutline::byte, CommandArgOutline::uint32, CommandArgOutline::uint32, CommandArgOutline::byte],
        _ => Vec::new(),
    };
    assert(v@ =~= spec_recv_args(id as int));
    v
}

/// The declaration of each command the host sends, by static id: its name
/// together with the kinds of its fields, in order; `None` past the last id.
pub open spec fn spec_send_signature(id: int) -> Option<(&'static str, Seq<CommandArgOutline>)> {
    if id == 0 {
        Some(("identify", seq![CommandArgOutline::uint32, CommandArgOutline::byte]))
    } else if id == 1 {
        Some(("allocate_oids", seq![CommandArgOutline::byte]))
    } else if id == 2 {
        Some(("get_uptime", seq![]))
    } else if id == 3 {
        Some(("get_clock", seq![]))
    } else if id == 4 {
        Some(("get_config", seq![]))
    } else if id == 5 {
        Some(("finalize_config", seq![CommandArgOutline::uint32]))
    } else if id == 6 {
        Some(("clear_shutdown", seq![]))
    } else if id == 7 {
        Some(("emergency_stop", seq![]))
    } else if id == 8 {
        Some(("reset", seq![]))
    } else if id == 9 {
        Some(("config_shutdown_pins", seq![CommandArgOutline::byte]))
    } else if id == 10 {
        Some(("shutdown_pins_add", seq![CommandArgOutline::byte, CommandArgOutline::byte, CommandArgOutline::byte]))
    } else if id == 11 {
        Some(("shutdown_pins_set", seq![CommandArgOutline::byte]))
    } else if id == 12 {
        Some(("config_por", seq![CommandArgOutline::byte, CommandArgOutline::byte, CommandArgOutline::byte, CommandArgOutline::byte, CommandArgOutline::byte, CommandArgOutline::uint32, CommandArgOutline::byte, CommandArgOutline::uint32]))
    } else if id == 13 {
        Some(("config_stepper", seq![CommandArgOutline::byte, CommandArgOutline::byte, CommandArgOutline::byte, CommandArgOutline::byte, CommandArgOutline::uint32]))
    } else if id == 14 {
        Some(("queue_step", seq![CommandArgOutline::byte, CommandArgOutline::uint32, CommandArgOutline::uint16, CommandArgOutline::int16]))
    } else if id == 15 {
        Some(("set_next_step_dir", seq![CommandArgOutline::byte, CommandArgOutline::byte]))
    } else if id == 16 {
        Some(("reset_step_clock", seq![CommandArgOutline::byte, CommandArgOutline::uint32]))
    } else if id == 17 {
        Some(("stepper_get_position", seq![CommandArgOutline::byte]))
    } else if id == 18 {
        Some(("stepper_stop_on_trigger", seq![CommandArgOutline::byte, CommandArgOutline::byte]))
    } else if id == 19 {
        Some(("config_trsync", seq![CommandArgOutline::byte]))
    } else if id == 20 {
        Some(("trsync_start", seq![CommandArgOutline::byte, CommandArgOutline::uint32, CommandArgOutline::uint32, CommandArgOutline::byte]))
    } else if id == 21 {
        Some(("trsync_set_timeout", seq![CommandArgOutline::byte, CommandArgOutline::uint32]))
    } else if id == 22 {
        Some(("trsync_trigger", seq![CommandArgOutline::byte, CommandArgOutline::byte]))
    } else if id == 23 {
        Some(("config_digital_out", seq![CommandArgOutline::byte, CommandArgOutline::uint32, CommandArgOutline::byte, CommandArgOutline::byte, CommandArgOutline::uint32]))
    } else if id == 24 {
        Some(("set_digital_out", seq![CommandArgOutline::uint32, CommandArgOutline::byte]))
    } else if id == 25 {
        Some(("update_digital_out", seq![CommandArgOutline::byte, CommandArgOutline::byte]))
    } else if id == 26 {
        Some(("set_digital_out_pwm_cycle", seq![CommandArgOutline::byte, CommandArgOutline::uint32]))
    } else if id == 27 {
        Some(("queue_digital_out", seq![CommandArgOutline::byte, CommandArgOutline::uint32, CommandArgOutline::uint32]))
    } else if id == 28 {
        Some(("config_endstop", seq![CommandArgOutline::byte, CommandArgOutline::byte, CommandArgOutline::byte]))
    } else if id == 29 {
        Some(("endstop_home", seq![CommandArgOutline::byte, CommandArgOutline::uint32, CommandArgOutline::uint32, CommandArgOutline::byte, CommandArgOutline::uint32, CommandArgOutline::byte, CommandArgOutline::byte, CommandArgOutline::byte]))
    } else if id == 30 {
        Some(("endstop_query_state", seq![CommandArgOutline::byte]))
    } else if id == 31 {
        Some(("config_buttons", seq![CommandArgOutline::byte, CommandArgOutline::byte]))
    } else if id == 32 {
        Some(("buttons_add", seq![CommandArgOutline::byte, CommandArgOutline::byte, CommandArgOutline::uint32, CommandArgOutline::byte]))
    } else if id == 33 {
        Some(("buttons_ack", seq![CommandArgOutline::byte, CommandArgOutline::byte]))
    } else if id == 34 {
        Some(("buttons_query", seq![CommandArgOutline::byte, CommandArgOutline::uint32, CommandArgOutline::uint32, CommandArgOutline::byte, CommandArgOutline::byte]))
    } else if id == 35 {
        Some(("config_analog_in", seq![CommandArgOutline::byte, CommandArgOutline::uint32]))
    } else if id == 36 {
        Some(("query_analog_in", seq![CommandArgOutline::byte, CommandArgOutline::uint32, CommandArgOutline::uint32, CommandArgOutline::byte, CommandArgOutline::uint32, CommandArgOutline::uint16, CommandArgOutline::uint16, CommandArgOutline::byte]))
    } else if id == 37 {
        Some(("config_counter", seq![CommandArgOutline::byte, CommandArgOutline::uint32, CommandArgOutline::byte]))
    } else if id == 38 {
        Some(("query_counter", seq![CommandArgOutline::byte, CommandArgOutline::uint32, CommandArgOutline::uint32, CommandArgOutline::uint32]))
    } else if id == 39 {
        Some(("config_spi", seq![CommandArgOutline::byte, CommandArgOutline::uint32, CommandArgOutline::byte]))
    } else if id == 40 {
        Some(("config_spi_without_cs", seq![CommandArgOutline::byte]))
    } else if id == 41 {
        Some(("spi_set_bus", seq![CommandArgOutline::byte, CommandArgOutline::uint32, CommandArgOutline::uint32, CommandArgOutline::uint32]))
    } else if id == 42 {
        Some(("spi_set_software_bus", seq![CommandArgOutline::byte, CommandArgOutline::uint32, CommandArgOutline::uint32, CommandArgOutline::uint32, CommandArgOutline::uint32, CommandArgOutline::uint32]))
    } else if id == 43 {
        Some(("spi_send", seq![CommandArgOutline::byte, CommandArgOutline::buffer]))
    } else if id == 44 {
        Some(("spi_transfer", seq![CommandArgOutline::byte, CommandArgOutline::buffer]))
    } else if id == 45 {
        Some(("config_spi_shutdown", seq![CommandArgOutline::byte, CommandArgOutline::byte, CommandArgOutline::buffer]))
    } else if id == 46 {
        Some(("config_spi_angle", seq![CommandArgOutline::byte, CommandArgOutline::byte, CommandArgOutline::byte]))
    } else if id == 47 {
        Some(("query_spi_angle", seq![CommandArgOutline::byte, CommandArgOutline::uint32, CommandArgOutline::uint32, CommandArgOutline::byte]))
    } else if id == 48 {
        Some(("spi_angle_transfer", seq![CommandArgOutline::byte, CommandArgOutline::buffer]))
    } else if id == 49 {
        Some(("config_i2c", seq![CommandArgOutline::byte]))
    } else if id == 50 {
        Some(("i2c_set_bus", seq![CommandArgOutline::byte, CommandArgOutline::uint32, CommandArgOutline::uint32, CommandArgOutline::uint32]))
    } else if id == 51 {
        Some(("i2c_set_software_bus", seq![CommandArgOutline::byte, CommandArgOutline::uint32, CommandArgOutline::uint32, CommandArgOutline::uint32, CommandArgOutline::uint32]))
    } else if id == 52 {
        Some(("i2c_write", seq![CommandArgOutline::byte, CommandArgOutline::buffer]))
    } else if id == 53 {
        Some(("i2c_read", seq![CommandArgOutline::byte, CommandArgOutline::buffer, CommandArgOutline::uint32]))
    } else if id == 54 {
        Some(("i2c_modify_bits", seq![CommandArgOutline::byte, CommandArgOutline::buffer, CommandArgOutline::buffer]))
    } else if id == 55 {
        Some(("config_neopixel", seq![CommandArgOutline::byte, CommandArgOutline::uint32, CommandArgOutline::uint16, CommandArgOutline::uint32, CommandArgOutline::uint32]))
    } else if id == 56 {
        Some(("neopixel_update", seq![CommandArgOutline::byte, CommandArgOutline::uint16, CommandArgOutline::buffer]))
    } else if id == 57 {
        Some(("neopixel_send", seq![CommandArgOutline::byte]))
    } else if id == 58 {
        Some(("config_tmcuart", seq![CommandArgOutline::byte, CommandArgOutline::uint32, CommandArgOutline::byte, CommandArgOutline::uint32, CommandArgOutline::uint32]))
    } else if id == 59 {
        Some(("tmcuart_send", seq![CommandArgOutline::byte, CommandArgOutline::buffer, CommandArgOutline::byte]))
    } else if id == 60 {
        Some(("debug_nop", seq![]))
    } else if id == 61 {
        Some(("debug_ping", seq![CommandArgOutline::buffer]))
    } else if id == 62 {
        Some(("debug_write", seq![CommandArgOutline::byte, CommandArgOutline::uint32, CommandArgOutline::uint32]))
    } else if id == 63 {
        Some(("debug_read", seq![CommandArgOutline::byte, CommandArgOutline::uint32]))
    } else if id == 64 {
        Some(("config_hd44780", seq![CommandArgOutline::byte, CommandArgOutline::uint32, CommandArgOutline::uint32, CommandArgOutline::uint32, CommandArgOutline::uint32, CommandArgOutline::uint32, CommandArgOutline::uint32, CommandArgOutline::uint32]))
    } else if id == 65 {
        Some(("hd44780_send_cmds", seq![CommandArgOutline::byte, CommandArgOutline::buffer]))
    } else if id == 66 {
        Some(("hd44780_send_data", seq![CommandArgOutline::byte, CommandArgOutline::buffer]))
    } else if id == 67 {
        Some(("config_st7920", seq![CommandArgOutline::byte, CommandArgOutline::uint32, CommandArgOutline::uint32, CommandArgOutline::uint32, CommandArgOutline::uint32, CommandArgOutline::uint32]))
    } else if id == 68 {
        Some(("st7920_send_cmds", seq![CommandArgOutline::byte, CommandArgOutline::buffer]))
    } else if id == 69 {
        Some(("st7920_send_data", seq![CommandArgOutline::byte, CommandArgOutline::buffer]))
    } else if id == 70 {
        Some(("config_load_cell_endstop", seq![CommandArgOutline::byte, CommandArgOutline::byte]))
    } else if id == 71 {
        Some(("config_load_cell_endstop_with_pin", seq![CommandArgOutline::byte, CommandArgOutline::byte, CommandArgOutline::uint32]))
    } else if id == 72 {
        Some(("load_cell_endstop_home", seq![CommandArgOutline::byte, CommandArgOutline::byte, CommandArgOutline::byte, CommandArgOutline::byte, CommandArgOutline::uint32, CommandArgOutline::byte, CommandArgOutline::uint32, CommandArgOutline::uint32]))
    } else if id == 73 {
        Some(("load_cell_endstop_query_state", seq![CommandArgOutline::byte]))
    } else if id == 74 {
        Some(("set_range_load_cell_endstop", seq![CommandArgOutline::byte, CommandArgOutline::int32, CommandArgOutline::int32, CommandArgOutline::int32, CommandArgOutline::uint32, CommandArgOutline::int32]))
    } else if id == 75 {
        Some(("attach_endstop_hx71x", seq![CommandArgOutline::byte, CommandArgOutline::byte]))
    } else if id == 76 {
        Some(("attach_endstop_cs123x", seq![CommandArgOutline::byte, CommandArgOutline::byte]))
    } else if id == 77 {
        Some(("config_sos_filter", seq![CommandArgOutline::byte]))
    } else if id == 78 {
        Some(("config_sos_filter_section", seq![CommandArgOutline::byte, CommandArgOutline::byte, CommandArgOutline::byte, CommandArgOutline::int32, CommandArgOutline::int32, CommandArgOutline::int32, CommandArgOutline::int32, CommandArgOutline::int32]))
    } else if id == 79 {
        Some(("config_hx71x", seq![CommandArgOutline::byte, CommandArgOutline::byte, CommandArgOutline::uint32, CommandArgOutline::uint32]))
    } else if id == 80 {
        Some(("query_hx71x", seq![CommandArgOutline::byte, CommandArgOutline::uint32]))
    } else if id == 81 {
        Some(("query_hx71x_status", seq![CommandArgOutline::byte]))
    } else if id == 82 {
        Some(("config_cs123x", seq![CommandArgOutline::byte, CommandArgOutline::uint32, CommandArgOutline::uint32]))
    } else if id == 83 {
        Some(("cs123x_read", seq![CommandArgOutline::byte]))
    } else if id == 84 {
        Some(("cs123x_write", seq![CommandArgOutline::byte, CommandArgOutline::byte]))
    } else if id == 85 {
        Some(("query_cs123x", seq![CommandArgOutline::byte, CommandArgOutline::uint32]))
    } else if id == 86 {
        Some(("query_cs123x_status", seq![CommandArgOutline::byte]))
    } else if id == 87 {
        Some(("config_ads1220", seq![CommandArgOutline::byte, CommandArgOutline::byte, CommandArgOutline::uint32]))
    } else if id == 88 {
        Some(("query_ads1220", seq![CommandArgOutline::byte, CommandArgOutline::uint32]))
    } else if id == 89 {
        Some(("query_ads1220_status", seq![CommandArgOutline::byte]))
    } else if id == 90 {
        Some(("config_thermocouple", seq![CommandArgOutline::byte, CommandArgOutline::byte, CommandArgOutline::byte]))
    } else if id == 91 {
        Some(("query_thermocouple", seq![CommandArgOutline::byte, CommandArgOutline::uint32, CommandArgOutline::uint32, CommandArgOutline::uint32, CommandArgOutline::uint32, CommandArgOutline::byte]))
    } else if id == 92 {
        Some(("config_ldc1612", seq![CommandArgOutline::byte, CommandArgOutline::byte]))
    } else if id == 93 {
        Some(("config_ldc1612_with_intb", seq![CommandArgOutline::byte, CommandArgOutline::byte, CommandArgOutline::byte]))
    } else if id == 94 {
        Some(("ldc1612_setup_home", seq![CommandArgOutline::byte, CommandArgOutline::uint32, CommandArgOutline::uint32, CommandArgOutline::byte, CommandArgOutline::byte, CommandArgOutline::byte]))
    } else if id == 95 {
        Some(("query_ldc1612", seq![CommandArgOutline::byte, CommandArgOutline::uint32]))
    } else if id == 96 {
        Some(("query_ldc1612_home_state", seq![CommandArgOutline::byte]))
    } else if id == 97 {
        Some(("query_status_ldc1612", seq![CommandArgOutline::byte]))
    } else if id == 98 {
        Some(("config_adxl345", seq![CommandArgOutline::byte, CommandArgOutline::byte]))
    } else if id == 99 {
        Some(("query_adxl345", seq![CommandArgOutline::byte, CommandArgOutline::uint32]))
    } else if id == 100 {
        Some(("query_adxl345_status", seq![CommandArgOutline::byte]))
    } else if id == 101 {
        Some(("config_lis2dw", seq![CommandArgOutline::byte, CommandArgOutline::byte]))
    } else if id == 102 {
        Some(("query_lis2dw", seq![CommandArgOutline::byte, CommandArgOutline::uint32]))
    } else if id == 103 {
        Some(("query_lis2dw_status", seq![CommandArgOutline::byte]))
    } else if id == 104 {
        Some(("config_mpu9250", seq![CommandArgOutline::byte, CommandArgOutline::byte]))
    } else if id == 105 {
        Some(("query_mpu9250", seq![CommandArgOutline::byte, CommandArgOutline::uint32]))
    } else if id == 106 {
        Some(("query_mpu9250_status", seq![CommandArgOutline::byte]))
    } else {
        None
    }
}

/// The declaration of each command the host receives, by static id: its name
/// together with the kinds of its fields, in order; `None` past the last id.
pub open spec fn spec_recv_signature(id: int) -> Option<(&'static str, Seq<CommandArgOutline>)> {
    if id == 0 {
        Some(("identify_response", seq![CommandArgOutline::uint32, CommandArgOutline::buffer]))
    } else if id == 1 {
        Some(("clock", seq![CommandArgOutline::uint32]))
    } else if id == 2 {
        Some(("uptime", seq![CommandArgOutline::uint32, CommandArgOutline::uint32]))
    } else if id == 3 {
        Some(("config", seq![CommandArgOutline::byte, CommandArgOutline::uint32, CommandArgOutline::byte, CommandArgOutline::uint16]))
    } else if id == 4 {
        Some(("pong", seq![CommandArgOutline::buffer]))
    } else if id == 5 {
        Some(("starting", seq![]))
    } else if id == 6 {
        Some(("is_shutdown", seq![CommandArgOutline::uint16]))
    } else if id == 7 {
        Some(("shutdown", seq![CommandArgOutline::uint32, CommandArgOutline::uint16]))
    } else if id == 8 {
        Some(("stepper_position", seq![CommandArgOutline::byte, CommandArgOutline::int32]))
    } else if id == 9 {
        Some(("trsync_state", seq![CommandArgOutline::byte, CommandArgOutline::byte, CommandArgOutline::byte, CommandArgOutline::uint32]))
    } else if id == 10 {
        Some(("endstop_state", seq![CommandArgOutline::byte, CommandArgOutline::byte, CommandArgOutline::uint32, CommandArgOutline::byte]))
    } else if id == 11 {
        Some(("buttons_state", seq![CommandArgOutline::byte, CommandArgOutline::byte, CommandArgOutline::buffer]))
    } else if id == 12 {
        Some(("analog_in_state", seq![CommandArgOutline::byte, CommandArgOutline::uint32, CommandArgOutline::uint16]))
    } else if id == 13 {
        Some(("counter_state", seq![CommandArgOutline::byte, CommandArgOutline::uint32, CommandArgOutline::uint32, CommandArgOutline::uint32]))
    } else if id == 14 {
        Some(("spi_transfer_response", seq![CommandArgOutline::byte, CommandArgOutline::buffer]))
    } else if id == 15 {
        Some(("spi_angle_transfer_response", seq![CommandArgOutline::byte, CommandArgOutline::uint32, CommandArgOutline::buffer]))
    } else if id == 16 {
        Some(("i2c_read_response", seq![CommandArgOutline::byte, CommandArgOutline::buffer]))
    } else if id == 17 {
        Some(("tmcuart_response", seq![CommandArgOutline::byte, CommandArgOutline::buffer]))
    } else if id == 18 {
        Some(("neopixel_result", seq![CommandArgOutline::byte, CommandArgOutline::byte]))
    } else if id == 19 {
        Some(("debug_result", seq![CommandArgOutline::uint32]))
    } else if id == 20 {
        Some(("stats", seq![CommandArgOutline::uint32, CommandArgOutline::uint32, CommandArgOutline::uint32]))
    } else if id == 21 {
        Some(("load_cell_endstop_state", seq![CommandArgOutline::byte, CommandArgOutline::byte, CommandArgOutline::byte, CommandArgOutline::byte, CommandArgOutline::uint32, CommandArgOutline::uint32, CommandArgOutline::int32, CommandArgOutline::int32, CommandArgOutline::int32, CommandArgOutline::uint32, CommandArgOutline::byte]))
    } else if id == 22 {
        Some(("sensor_bulk_data", seq![CommandArgOutline::byte, CommandArgOutline::uint16, CommandArgOutline::buffer]))
    } else if id == 23 {
        Some(("sensor_bulk_status", seq![CommandArgOutline::byte, CommandArgOutline::uint32, CommandArgOutline::uint32, CommandArgOutline::uint16, CommandArgOutline::uint32, CommandArgOutline::uint16]))
    } else if id == 24 {
        Some(("cs123x_read_response", seq![CommandArgOutline::byte, CommandArgOutline::byte]))
    } else if id == 25 {
        Some(("ldc1612_home_state", seq![CommandArgOutline::byte, CommandArgOutline::byte, CommandArgOutline::uint32]))
    } else if id == 26 {
        Some(("thermocouple_result", seq![CommandArgOutline::byte, CommandArgOutline::uint32, CommandArgOutline::uint32, CommandArgOutline::byte]))
    } else {
        None
    }
}

/// The name table and the argument table of the commands the host sends
/// agree with the declarations: the command at static id `i` is called as
/// declared and takes the fields declared with that name, for every id.
pub proof fn lemma_send_tables_agree()
    ensures
        spec_send_names().len() == SEND_COMMAND_COUNT,
        forall|i: int| 0 <= i < SEND_COMMAND_COUNT ==>
            #[trigger] spec_send_signature(i) == Some((spec_send_names()[i], spec_send_args(i))),
        forall|i: int| !(0 <= i < SEND_COMMAND_COUNT) ==> #[trigger] spec_send_signature(i) is None,
{
}

/// The name table and the argument table of the commands the host receives
/// agree with the declarations: the command at static id `i` is called as
/// declared and carries the fields declared with that name, for every id.
pub proof fn lemma_recv_tables_agree()
    ensures
        spec_recv_names().len() == RECV_COMMAND_COUNT,
        forall|i: int| 0 <= i < RECV_COMMAND_COUNT ==>
            #[trigger] spec_recv_signature(i) == Some((spec_recv_names()[i], spec_recv_args(i))),
        forall|i: int| !(0 <= i < RECV_COMMAND_COUNT) ==> #[trigger] spec_recv_signature(i) is None,
{
}

} // verus!
