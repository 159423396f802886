use kmcu::command::{CommandArgFilled, CommandFilled};
use kmcu::commands::send_command_id_for_name;
use kmcu::config::{ConnectionWrapper, CoreXYKinematics, GeneralAxisConfig, GeneralKinematics, SimMCUConfig};
use kmcu::elegoo::{BootloaderCmd, Elegoo0xA55A, ElegooAction, ElegooEvent, PING_MAGIC};
use kmcu::error::IOError;
use kmcu::frame::{Frame, FramePayload};
use kmcu::gpio::{checked_pin_name_to_int, decimal, pin_name_to_int, set_pin_direction, set_pin_export, set_pin_value, GPIO};
use kmcu::klipper::{
    alive_request, assign_oids, cmd_allocate_oids, cmd_finalize_config, count_oids, expect_ack, expect_response,
    from_zlib_bytes, identify_text, invert_step, AxisKind, IdentifyReader, KlipperSession, KA4988, KTMC2209,
    McuPin, Tmc2209Settings, TmcCurrent, checked_count_oids, setup_progress, SetupProgress, Tmc2209Step, ALLOCATE_OIDS_ID, CONFIG_STEPPER_ID, CONFIG_TMCUART_ID, FINALIZE_CONFIG_ID,
    IDENTIFY_ID, QUEUE_STEP_ID, SET_NEXT_STEP_DIR_ID,
};
use kmcu::os_dummy;
use kmcu::os_linux;
use kmcu::reader::ByteReader;
use kmcu::rpmsg::{assigned_endpoint_id, endpoint_name, endpoint_path, first_new_device, is_rpmsg_device, poll_outcome};
use kmcu::runtime::{init_connection_with_wrapper, power_step_error, CoreXYRuntime, FromConfig, MCUError, PowerStep, SimMCURuntime, MCU};

#[test]
fn command_ids_agree_with_the_table() {
    assert_eq!(send_command_id_for_name("identify"), IDENTIFY_ID);
    assert_eq!(send_command_id_for_name("allocate_oids"), ALLOCATE_OIDS_ID);
    assert_eq!(send_command_id_for_name("finalize_config"), FINALIZE_CONFIG_ID);
    assert_eq!(send_command_id_for_name("config_stepper"), CONFIG_STEPPER_ID);
    assert_eq!(send_command_id_for_name("queue_step"), QUEUE_STEP_ID);
    assert_eq!(send_command_id_for_name("set_next_step_dir"), SET_NEXT_STEP_DIR_ID);
    assert_eq!(send_command_id_for_name("config_tmcuart"), CONFIG_TMCUART_ID);
}

#[test]
fn oid_allocation() {
    let axes = vec![AxisKind::Tmc2209, AxisKind::Dummy, AxisKind::A4988, AxisKind::Tmc2209];
    assert_eq!(count_oids(&axes), 5);
    assert_eq!(assign_oids(&axes), vec![0, 2, 2, 3]);
    assert_eq!(count_oids(&vec![]), 0);
    assert_eq!(assign_oids(&vec![]), Vec::<u8>::new());
    let c = cmd_allocate_oids(5);
    assert_eq!((c.0, c.1), (1, vec![CommandArgFilled::byte(5)]));
    let f = cmd_finalize_config(0);
    assert_eq!((f.0, f.1), (5, vec![CommandArgFilled::uint32(0)]));
}

#[test]
fn step_inversion() {
    assert_eq!(invert_step(1, 1), 2);
    assert_eq!(invert_step(1, 0), 1);
    assert_eq!(invert_step(0, 1), 0);
    assert_eq!(invert_step(0, 0), 0);
}

#[test]
fn a4988_setup() {
    let s = McuPin { num: 3, invert: 1 };
    let d = McuPin { num: 4, invert: 1 };
    let (axis, cmd) = KA4988::new(Some(s), Some(d), GeneralAxisConfig {}, 7).unwrap();
    assert_eq!(axis.oid, 7);
    assert_eq!(cmd.0, CONFIG_STEPPER_ID);
    assert_eq!(
        cmd.1,
        vec![
            CommandArgFilled::byte(7),
            CommandArgFilled::byte(3),
            CommandArgFilled::byte(4),
            CommandArgFilled::byte(2),
            CommandArgFilled::uint32(0)
        ]
    );
    assert!(matches!(KA4988::new(None, Some(d), GeneralAxisConfig {}, 0), Err(IOError::InvalidPin)));
    assert!(matches!(KA4988::new(Some(s), None, GeneralAxisConfig {}, 0), Err(IOError::InvalidPin)));
}

fn tmc_settings() -> Tmc2209Settings {
    Tmc2209Settings {
        step_pin: McuPin { num: 10, invert: 0 },
        dir_pin: McuPin { num: 11, invert: 1 },
        uart_pin: McuPin { num: 12, invert: 0 },
        tx_pin: McuPin { num: 13, invert: 0 },
        uart_address: 2,
        driver_sgthrs: 100,
        interpolate: true,
        rotation_distance: 4000,
        full_steps_per_rotation: 200,
        microsteps: 16,
    }
}

#[test]
fn tmc2209_setup_commands_and_registers() {
    let current = TmcCurrent { vsense: true, irun: 20, ihold: 10 };
    let (axis, setup) = KTMC2209::new(&tmc_settings(), current, 4, 12_000_000);
    assert_eq!(axis.motor_oid, 4);
    assert_eq!(axis.clock_freq, 12_000_000);
    assert_eq!(axis.step_dd, 1);
    assert_eq!(axis.dir_pin_invert, 1);
    assert_eq!(setup.uart_oid, 5);
    assert_eq!(setup.uart_address, 2);
    assert_eq!(setup.config_stepper.0, CONFIG_STEPPER_ID);
    assert_eq!(
        setup.config_stepper.1,
        vec![
            CommandArgFilled::byte(4),
            CommandArgFilled::byte(10),
            CommandArgFilled::byte(11),
            CommandArgFilled::byte(0),
            CommandArgFilled::uint32(0)
        ]
    );
    assert_eq!(setup.config_tmcuart.0, CONFIG_TMCUART_ID);
    assert_eq!(
        setup.config_tmcuart.1,
        vec![
            CommandArgFilled::byte(5),
            CommandArgFilled::uint32(12),
            CommandArgFilled::byte(0),
            CommandArgFilled::uint32(13),
            CommandArgFilled::uint32(300)
        ]
    );
    assert_eq!(
        setup.registers,
        vec![
            (0x00, 0x1C4),
            (0x6C, 0x1403_0053),
            (0x10, 0x8_140A),
            (0x11, 20),
            (0x40, 100),
            (0x42, 100 << 16),
            (0x70, 0xD_0E24),
            (0x14, 0xF_FFFF),
            (0x13, 0)
        ]
    );
}

#[test]
fn tmc2209_step_size_rounds_toward_zero() {
    let mut s = tmc_settings();
    s.rotation_distance = -4000;
    let (axis, _) = KTMC2209::new(&s, TmcCurrent { vsense: false, irun: 1, ihold: 1 }, 0, 1000);
    assert_eq!(axis.step_dd, -1);
    s.rotation_distance = 6399;
    let (axis, setup) = KTMC2209::new(&s, TmcCurrent { vsense: false, irun: 1, ihold: 1 }, 0, 1000);
    assert_eq!(axis.step_dd, 1);
    assert_eq!(setup.registers[1], (0x6C, 0x1401_0053));
}

#[test]
fn tmc2209_moves() {
    let axis = KTMC2209 { motor_oid: 3, clock_freq: 12_000_000, step_dd: 124, dir_pin_invert: 0 };
    let cmds = axis.simple_move(10);
    assert_eq!(cmds.len(), 2);
    assert_eq!((cmds[0].0, cmds[0].1.clone()), (SET_NEXT_STEP_DIR_ID, vec![CommandArgFilled::byte(3), CommandArgFilled::byte(0)]));
    assert_eq!(cmds[1].0, QUEUE_STEP_ID);
    assert_eq!(
        cmds[1].1,
        vec![CommandArgFilled::byte(3), CommandArgFilled::uint32(148_800), CommandArgFilled::uint16(1), CommandArgFilled::int16(0)]
    );
    let back = axis.simple_move(-20);
    assert_eq!(back[0].1, vec![CommandArgFilled::byte(3), CommandArgFilled::byte(1)]);
    assert_eq!(back[1].1[1], CommandArgFilled::uint32(74_400));
    let rest = axis.simple_move(0);
    assert_eq!(rest.len(), 1);
    assert_eq!(rest[0].1, vec![CommandArgFilled::byte(3), CommandArgFilled::byte(1)]);
    let inverted = KTMC2209 { dir_pin_invert: 1, ..axis };
    assert_eq!(inverted.simple_move(10)[0].1[1], CommandArgFilled::byte(1));
    let no_step = KTMC2209 { step_dd: 0, ..axis };
    assert_eq!(no_step.simple_move(10).len(), 1);
}

fn identify_response(data: Vec<u8>) -> Option<CommandFilled> {
    Some(CommandFilled(0, vec![CommandArgFilled::uint32(0), CommandArgFilled::buffer(data)]))
}

#[test]
fn identify_reader_collects_chunks() {
    let mut r = IdentifyReader::new();
    let req = r.request();
    assert_eq!((req.0, req.1), (IDENTIFY_ID, vec![CommandArgFilled::uint32(0), CommandArgFilled::byte(40)]));
    assert!(!r.on_reply(&identify_response(vec![1, 2, 3])));
    assert_eq!(r.request().1[0], CommandArgFilled::uint32(40));
    assert!(!r.on_reply(&None));
    assert!(!r.on_reply(&Some(CommandFilled(4, vec![]))));
    assert_eq!(r.request().1[0], CommandArgFilled::uint32(40));
    assert!(!r.on_reply(&identify_response(vec![4])));
    assert_eq!(r.request().1[0], CommandArgFilled::uint32(80));
    assert!(r.on_reply(&identify_response(vec![])));
    assert_eq!(r.data(), &[1, 2, 3, 4]);
}

#[test]
fn identify_reader_keeps_at_most_its_capacity() {
    let mut r = IdentifyReader::new();
    for _ in 0..102 {
        assert!(!r.on_reply(&identify_response(vec![7; 40])));
    }
    assert_eq!(r.data().len(), 4080);
    assert!(!r.on_reply(&identify_response(vec![8; 40])));
    assert_eq!(r.data().len(), 4080);
    assert!(!r.on_reply(&identify_response(vec![9; 16])));
    assert_eq!(r.data().len(), 4096);
    assert_eq!(r.request().1[0], CommandArgFilled::uint32(104 * 40));
}

#[test]
fn identify_data_inflates_to_text() {
    let json = br#"{"app":"Klipper","commands":{"identify offset=%u count=%c":1}}"#;
    let z = miniz_oxide::deflate::compress_to_vec_zlib(json, 6);
    assert_eq!(from_zlib_bytes(&z).unwrap().as_bytes(), json);
    assert!(matches!(from_zlib_bytes(&[1, 2, 3, 4]), Err(IOError::ZlibDecode { status }) if status < 0));
    let truncated = &miniz_oxide::deflate::compress_to_vec_zlib(json, 6)[..10];
    assert!(matches!(from_zlib_bytes(truncated), Err(IOError::ZlibDecode { .. })));
    let bad = miniz_oxide::deflate::compress_to_vec_zlib(&[0xff, 0xfe], 6);
    assert_eq!(from_zlib_bytes(&bad), Err(IOError::InvalidUTF8));
    assert_eq!(identify_text(Err(-1)), Err(IOError::ZlibDecode { status: -1 }));
    assert_eq!(identify_text(Ok(b"ok".to_vec())).unwrap(), "ok");
    assert_eq!(identify_text(Ok(vec![0xc3])), Err(IOError::InvalidUTF8));
}

#[test]
fn session_tracks_sequence_and_replies() {
    let mut s = KlipperSession::new();
    assert_eq!(s.seq, 0);
    let f = s.frame_for(alive_request());
    assert_eq!(f.seq, 0);
    let got = s.on_frame(Frame { seq: 5, payload: FramePayload::Empty });
    assert!(got.is_none());
    assert_eq!(s.seq, 5);
    let got = s.on_frame(Frame { seq: 6, payload: FramePayload::RecvCommand(CommandFilled(4, vec![])) });
    assert_eq!(got.map(|c| c.0), Some(4));
    assert_eq!(s.seq, 6);
    assert_eq!(expect_ack(None), Ok(()));
    assert_eq!(expect_ack(Some(CommandFilled(4, vec![]))), Err(IOError::UnexpectedData));
    assert_eq!(expect_response(Some(CommandFilled(4, vec![]))).map(|c| c.0), Ok(4));
    assert_eq!(expect_response(None).map(|c| c.0), Err(IOError::UnexpectedNullData));
    let a = alive_request();
    assert_eq!((a.0, a.1), (0, vec![CommandArgFilled::uint32(0), CommandArgFilled::byte(0)]));
}

fn run_until_exchange(m: &mut Elegoo0xA55A) -> Vec<ElegooAction> {
    let mut acts = Vec::new();
    for _ in 0..6 {
        acts.push(m.step(ElegooEvent::Done));
    }
    acts
}

#[test]
fn elegoo_bring_up_sequence() {
    let mut m = Elegoo0xA55A::new("PA5").unwrap();
    let acts = run_until_exchange(&mut m);
    assert!(matches!(acts[0], ElegooAction::SetPin(false)));
    assert!(matches!(acts[1], ElegooAction::Sleep(200)));
    assert!(matches!(acts[2], ElegooAction::SetPin(true)));
    assert!(matches!(acts[3], ElegooAction::Sleep(50)));
    assert!(matches!(acts[4], ElegooAction::Connect));
    assert!(matches!(acts[5], ElegooAction::Exchange(BootloaderCmd::Ping(PING_MAGIC))));
    let a = m.step(ElegooEvent::Reply(Err(IOError::Timeout)));
    assert!(matches!(a, ElegooAction::Exchange(BootloaderCmd::Ping(PING_MAGIC))));
    let a = m.step(ElegooEvent::Reply(Ok(BootloaderCmd::Pong(PING_MAGIC))));
    assert!(matches!(a, ElegooAction::Send(BootloaderCmd::Jump)));
    assert!(matches!(m.step(ElegooEvent::Done), ElegooAction::Sleep(200)));
    assert!(matches!(m.step(ElegooEvent::Done), ElegooAction::FlushInput));
    assert!(matches!(m.step(ElegooEvent::Done), ElegooAction::Finished));
    assert!(matches!(m.step(ElegooEvent::Done), ElegooAction::Finished));
}

#[test]
fn elegoo_gives_up_after_five_timeouts() {
    let mut m = Elegoo0xA55A::new("PA5").unwrap();
    run_until_exchange(&mut m);
    for _ in 0..4 {
        let a = m.step(ElegooEvent::Reply(Err(IOError::Timeout)));
        assert!(matches!(a, ElegooAction::Exchange(BootloaderCmd::Ping(PING_MAGIC))));
    }
    let a = m.step(ElegooEvent::Reply(Err(IOError::Timeout)));
    assert!(matches!(a, ElegooAction::Failed(IOError::Timeout)));
}

#[test]
fn elegoo_rejects_unexpected_replies() {
    let mut m = Elegoo0xA55A::new("PA5").unwrap();
    run_until_exchange(&mut m);
    let a = m.step(ElegooEvent::Reply(Ok(BootloaderCmd::Pong(1))));
    assert!(matches!(a, ElegooAction::Failed(IOError::UnexpectedCommand)));
    let mut m = Elegoo0xA55A::new("PA5").unwrap();
    run_until_exchange(&mut m);
    let a = m.step(ElegooEvent::Reply(Err(IOError::InvalidCrc)));
    assert!(matches!(a, ElegooAction::Failed(IOError::UnexpectedCommand)));
}

#[test]
fn bootloader_commands_on_the_wire() {
    let mut w = Vec::new();
    BootloaderCmd::Ping(0x1234_5678).encode(&mut w).unwrap();
    assert_eq!(w, vec![0xA5, 0x5A, 0x03, 0x00, 0x04, 0x12, 0x34, 0x56, 0x78, 0xb4, 0x2c]);
    assert_eq!(BootloaderCmd::Ping(0x1234_5678).size(), 11);
    let mut noisy = vec![0x00, 0xA5, 0x00];
    noisy.extend_from_slice(&w);
    let mut r = ByteReader::new(noisy);
    assert_eq!(BootloaderCmd::decode(&mut r), Ok(BootloaderCmd::Pong(0x1234_5678)));
    assert_eq!(r.remaining(), 0);

    let mut j = Vec::new();
    BootloaderCmd::Jump.encode(&mut j).unwrap();
    assert_eq!(BootloaderCmd::decode(&mut ByteReader::new(j)), Ok(BootloaderCmd::Jump));

    let prog = BootloaderCmd::Program { offset: 0x100, length: 0x2000, size: 2, data: vec![0xde, 0xad] };
    let mut p = Vec::new();
    prog.encode(&mut p).unwrap();
    assert_eq!(BootloaderCmd::decode(&mut ByteReader::new(p)), Ok(prog));

    let mut bad = w.clone();
    bad[10] ^= 1;
    assert_eq!(BootloaderCmd::decode(&mut ByteReader::new(bad)), Err(IOError::InvalidHeader { header: 0xb42d }));
    assert_eq!(BootloaderCmd::decode(&mut ByteReader::from_slice(&[0x12])), Err(IOError::UnexpectedEof));
}

#[test]
fn gpio_pin_numbers() {
    assert_eq!(pin_name_to_int("PA15"), Some(15));
    assert_eq!(pin_name_to_int("PB3"), Some(35));
    assert_eq!(pin_name_to_int("PH10"), Some(7 * 32 + 10));
    assert_eq!(pin_name_to_int("P3"), None);
    assert_eq!(pin_name_to_int("PAx"), None);
    assert_eq!(pin_name_to_int("PA"), None);
}

#[test]
fn gpio_sysfs_writes() {
    assert_eq!(decimal(0), "0");
    assert_eq!(decimal(4_294_967_295), "4294967295");
    let w = set_pin_export(35, true);
    assert_eq!((w.path.as_str(), w.data.as_str()), ("/sys/class/gpio/export", "35"));
    let w = set_pin_export(35, false);
    assert_eq!(w.path, "/sys/class/gpio/unexport");
    let w = set_pin_direction(35, true);
    assert_eq!((w.path.as_str(), w.data.as_str()), ("/sys/class/gpio/gpio35/direction", "in"));
    let w = set_pin_value(7, false);
    assert_eq!((w.path.as_str(), w.data.as_str()), ("/sys/class/gpio/gpio7/value", "0"));

    let g = GPIO::new("PB3", false, true).unwrap();
    assert_eq!(g.set(true).data, "0");
    assert_eq!(g.set(false).data, "1");
    assert_eq!(g.direction_write().data, "out");
    assert_eq!(g.export_write(true).data, "35");
    let (v, u) = g.release_writes();
    assert_eq!((v.path.as_str(), v.data.as_str()), ("/sys/class/gpio/gpio35/value", "0"));
    assert_eq!(u.path, "/sys/class/gpio/unexport");
    assert_eq!(GPIO::new("P1", false, false).err().unwrap(), "Invalid GPIO Pin: 'P1'");
}

#[test]
fn platform_stand_ins() {
    assert_eq!(os_dummy::now(), 0);
    os_dummy::sleep(10);
    let g = os_dummy::GPIO::new("PA1", true).unwrap();
    assert!(g.set(true).is_ok());
    assert!(!g.level(true));
    assert!(g.level(false));

    let l = os_linux::GPIO::new(12, "led", true);
    let (e, d, v) = l.init_writes();
    assert_eq!((e.path.as_str(), e.data.as_str()), ("/sys/class/gpio/export", "12"));
    assert_eq!((d.path.as_str(), d.data.as_str()), ("/sys/class/gpio/gpio12/direction", "out"));
    assert_eq!(v.data, "1");
    assert_eq!(l.set(true).data, "0");
    let (v, u) = l.release_writes();
    assert_eq!(v.data, "1");
    assert_eq!(u.data, "12");
    assert_eq!(os_linux::set_pin_value(3, true).path, "/sys/class/gpio/gpio3/value");
    assert_eq!(os_linux::clock_millis(true, 1, 500_000_000), 1500);
    assert_eq!(os_linux::clock_millis(false, 1, 0), 0);
    assert_eq!(os_linux::clock_millis(true, 4_294_967, 296_000_000), 0);
    assert_eq!(os_linux::now(100, 250), 150);
}

#[test]
fn power_steps_for_each_wrapper() {
    assert!(matches!(init_connection_with_wrapper(&ConnectionWrapper::Plain)[..], [PowerStep::Connect]));
    let s = init_connection_with_wrapper(&ConnectionWrapper::SetPin { pin: "host:gpio1".to_string() });
    assert!(matches!(&s[..], [PowerStep::Connect, PowerStep::OpenPin(p), PowerStep::SetPin(true)] if p == "host:gpio1"));
    let s = init_connection_with_wrapper(&ConnectionWrapper::Pulse { pin: "p".to_string(), pulse: 30 });
    assert!(matches!(
        &s[..],
        [PowerStep::Connect, PowerStep::OpenPin(_), PowerStep::SetPin(false), PowerStep::Sleep(30), PowerStep::SetPin(true)]
    ));
    let s = init_connection_with_wrapper(&ConnectionWrapper::ElegooA55A { pin: "q".to_string() });
    assert!(matches!(&s[..], [PowerStep::ElegooBoot(p)] if p == "q"));
}

fn kinematics(x: &str, y: &str, z: &str, e: &str) -> CoreXYKinematics {
    CoreXYKinematics {
        general: GeneralKinematics {
            max_velocity: 300,
            max_accel: 3000,
            max_z_velocity: 5,
            max_z_accel: 100,
            x_range: [0, 256],
            y_range: [0, 256],
            z_range: [0, 256],
            square_corner_velocity: 5,
        },
        axis_x: x.to_string(),
        axis_y: y.to_string(),
        axis_z: z.to_string(),
        axis_extruder: e.to_string(),
    }
}

#[test]
fn corexy_picks_named_axes() {
    let names: Vec<String> = ["axis_e", "axis_x", "axis_z", "axis_y"].iter().map(|s| s.to_string()).collect();
    let c = CoreXYRuntime::from_config(&kinematics("axis_x", "axis_y", "axis_z", "axis_e"), &names).unwrap();
    assert_eq!((c.axis_x, c.axis_y, c.axis_z, c.axis_extruder), (1, 3, 2, 0));
    let missing = CoreXYRuntime::from_config(&kinematics("axis_x", "axis_q", "axis_z", "axis_e"), &names);
    assert_eq!(missing.err().unwrap(), "axis_q");
    let twice = CoreXYRuntime::from_config(&kinematics("axis_x", "axis_x", "axis_z", "axis_e"), &names);
    assert_eq!(twice.err().unwrap(), "axis_x");
}

#[test]
fn simulated_mcu_is_alive() {
    let mut m = SimMCURuntime::from_config(SimMCUConfig {}).unwrap();
    assert!(m.alive().is_ok());
}

#[test]
fn rpmsg_helpers() {
    let n = endpoint_name(b"klipper");
    assert_eq!(n.len(), 32);
    assert_eq!(&n[..7], b"klipper");
    assert!(n[7..].iter().all(|b| *b == 0));
    let long = endpoint_name(&[b'a'; 40]);
    assert_eq!(long[30], b'a');
    assert_eq!(long[31], 0);
    assert!(is_rpmsg_device("rpmsg12"));
    assert!(is_rpmsg_device("rpmsg"));
    assert!(!is_rpmsg_device("rpmsg_ctrl0"));
    assert!(!is_rpmsg_device("tty0"));
    assert_eq!(endpoint_path(3).unwrap(), "/dev/rpmsg3");
    assert!(endpoint_path(-1).is_none());
    assert_eq!(assigned_endpoint_id(0xffff_ffff), -1);
    assert_eq!(assigned_endpoint_id(7), 7);
    let before: Vec<String> = vec!["/dev/rpmsg0".to_string()];
    let current: Vec<String> = vec!["/dev/rpmsg0".to_string(), "/dev/rpmsg1".to_string()];
    assert_eq!(first_new_device(&before, &current), Some(1));
    assert_eq!(first_new_device(&current, &before), None);
    assert_eq!(poll_outcome(-1, 5, false), Err(IOError::Linux { errno: 5 }));
    assert_eq!(poll_outcome(0, 0, false), Err(IOError::Timeout));
    assert_eq!(poll_outcome(1, 0, true), Err(IOError::Linux { errno: 0 }));
    assert_eq!(poll_outcome(1, 0, false), Ok(()));
}

#[test]
fn bootloader_frame_after_a_stray_magic_byte() {
    let mut w = vec![0xA5];
    BootloaderCmd::Jump.encode(&mut w).unwrap();
    assert_eq!(&w[..4], &[0xA5, 0xA5, 0x5A, 0x02]);
    let mut r = ByteReader::new(w);
    assert_eq!(BootloaderCmd::decode(&mut r), Ok(BootloaderCmd::Jump));
    assert_eq!(r.remaining(), 0);

    let mut w = vec![0x00, 0x11];
    BootloaderCmd::Erase(7).encode(&mut w).unwrap();
    w.push(0x99);
    let mut r = ByteReader::new(w);
    assert_eq!(BootloaderCmd::decode(&mut r), Ok(BootloaderCmd::EraseAck(7)));
    assert_eq!(r.remaining(), 1);
}

#[test]
fn tmc2209_setup_steps_in_order() {
    let current = TmcCurrent { vsense: false, irun: 16, ihold: 8 };
    let (_, setup) = KTMC2209::new(&tmc_settings(), current, 2, 16_000_000);
    let registers = setup.registers.clone();
    let steps = setup.steps();
    assert_eq!(steps.len(), 11);
    assert!(matches!(&steps[0], Tmc2209Step::Send(c) if c.0 == CONFIG_STEPPER_ID));
    assert!(matches!(&steps[1], Tmc2209Step::Send(c) if c.0 == CONFIG_TMCUART_ID));
    let regs: Vec<u8> = steps[2..]
        .iter()
        .map(|s| match s {
            Tmc2209Step::WriteRegister { uart_oid: 3, address: 2, reg, value } => {
                assert!(registers.contains(&(*reg, *value)));
                *reg
            }
            _ => panic!("expected a register write"),
        })
        .collect();
    assert_eq!(regs, vec![0x00, 0x6C, 0x10, 0x11, 0x40, 0x42, 0x70, 0x14, 0x13]);
    assert_eq!(setup_progress(0, 11, Ok(())), SetupProgress::Next(0));
    assert_eq!(setup_progress(4, 11, Ok(())), SetupProgress::Next(4));
    assert_eq!(setup_progress(11, 11, Ok(())), SetupProgress::Done);
    assert_eq!(setup_progress(3, 11, Err(IOError::UnexpectedData)), SetupProgress::Stop(IOError::UnexpectedData));
}

#[test]
fn power_step_errors() {
    assert_eq!(power_step_error(&PowerStep::Connect, IOError::Timeout), Some(MCUError::KlipperConnection(IOError::Timeout)));
    assert_eq!(
        power_step_error(&PowerStep::OpenPin("PA1".to_string()), IOError::InvalidPin),
        Some(MCUError::Pin(IOError::InvalidPin, "PA1".to_string()))
    );
    assert_eq!(
        power_step_error(&PowerStep::ElegooBoot("PA2".to_string()), IOError::UnexpectedCommand),
        Some(MCUError::Elegoo0xA55A(IOError::UnexpectedCommand))
    );
    assert_eq!(power_step_error(&PowerStep::SetPin(true), IOError::Timeout), None);
    assert_eq!(power_step_error(&PowerStep::Sleep(5), IOError::Timeout), None);
}

#[test]
fn pin_names_checked_without_panicking() {
    assert_eq!(checked_pin_name_to_int("PB3"), Some(35));
    assert_eq!(checked_pin_name_to_int("P"), None);
    assert_eq!(checked_pin_name_to_int(""), None);
    assert_eq!(checked_pin_name_to_int("Pé1"), None);
    assert_eq!(checked_pin_name_to_int("P3"), None);
    assert_eq!(checked_pin_name_to_int("PZ4294967295"), None);
    assert_eq!(checked_pin_name_to_int("PA4294967295"), Some(u32::MAX));
}

#[test]
fn elegoo_refuses_a_bad_pin_before_acting() {
    assert!(matches!(Elegoo0xA55A::new("x"), Err(IOError::InvalidPin)));
    assert!(matches!(Elegoo0xA55A::new("P3"), Err(IOError::InvalidPin)));
    let m = Elegoo0xA55A::new("PB3").unwrap();
    assert_eq!(m.reset_pin(), 35);
}

#[test]
fn checked_set_up_variants() {
    let axes = vec![AxisKind::Tmc2209; 127];
    assert_eq!(checked_count_oids(&axes), Some(254));
    let axes = vec![AxisKind::Tmc2209; 128];
    assert_eq!(checked_count_oids(&axes), None);
    let current = TmcCurrent { vsense: false, irun: 1, ihold: 1 };
    assert!(KTMC2209::try_new(&tmc_settings(), current, 254, 1000).is_some());
    assert!(KTMC2209::try_new(&tmc_settings(), current, 255, 1000).is_none());
    let mut s = tmc_settings();
    s.microsteps = 0;
    assert!(KTMC2209::try_new(&s, current, 0, 1000).is_none());
    s.microsteps = 65535;
    s.full_steps_per_rotation = 65535;
    assert!(KTMC2209::try_new(&s, current, 0, 1000).is_none());
    let (a, _) = KTMC2209::try_new(&tmc_settings(), current, 4, 1000).unwrap();
    assert_eq!(a.step_dd, 1);
}

#[test]
fn payload_reads_back_as_the_reply_of_its_kind() {
    let cases = vec![
        (BootloaderCmd::Ping(0x0102_0304), BootloaderCmd::Pong(0x0102_0304)),
        (BootloaderCmd::Pong(9), BootloaderCmd::Pong(9)),
        (BootloaderCmd::Erase(0x8000), BootloaderCmd::EraseAck(0x8000)),
        (BootloaderCmd::EraseAck(5), BootloaderCmd::EraseAck(5)),
        (BootloaderCmd::ProgramAck { length: 0x2000, offset: 0x40 }, BootloaderCmd::ProgramAck { length: 0x2000, offset: 0x40 }),
        (BootloaderCmd::Program { offset: 1, length: 2, size: 0, data: vec![] }, BootloaderCmd::Program { offset: 1, length: 2, size: 0, data: vec![] }),
        (BootloaderCmd::Jump, BootloaderCmd::Jump),
    ];
    for (cmd, reply) in cases {
        assert_eq!(BootloaderCmd::from_payload(cmd.command_byte(), &cmd.payload()), Ok(reply));
    }
    let big = BootloaderCmd::Program { offset: 0, length: 0x20000, size: 0x10000, data: vec![0xab; 0x10000] };
    assert_eq!(big.payload().len(), 12 + 0x10000);
    assert_eq!(BootloaderCmd::from_payload(big.command_byte(), &big.payload()), Ok(big.clone()));
    assert_eq!(BootloaderCmd::Ping(0x0102_0304).payload(), vec![1, 2, 3, 4]);
    assert_eq!(BootloaderCmd::Erase(0).command_byte(), 0x00);
    assert_eq!(BootloaderCmd::Jump.command_byte(), 0x02);
}

#[test]
fn from_payload_refuses_bad_lengths_and_unknown_bytes() {
    assert_eq!(BootloaderCmd::from_payload(0x03, &[1, 2, 3]), Err(IOError::InvalidHeader { header: 0x0303 }));
    assert_eq!(BootloaderCmd::from_payload(0x00, &[1, 2, 3, 4, 5]), Err(IOError::InvalidHeader { header: 0x0005 }));
    assert_eq!(BootloaderCmd::from_payload(0x02, &[1]), Err(IOError::InvalidHeader { header: 0x0201 }));
    assert_eq!(BootloaderCmd::from_payload(0x01, &[0; 9]), Err(IOError::UnknownVariant { id: 1 }));
    assert_eq!(BootloaderCmd::from_payload(0x07, &[]), Err(IOError::UnknownVariant { id: 7 }));
}
