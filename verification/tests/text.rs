use kmcu::config::{
    default_axis_e, default_axis_x, default_axis_y, default_axis_z, default_full_steps, default_microsteps,
    default_remoteproc_path, default_rpmsg_ctrl_path, default_rpmsg_timeout, default_settle, default_start_duration,
    default_timeout, default_true, ConnectionWrapper,
};
use kmcu::gcode::{classify_line, eq_ignore_ascii_case, parse_bool, parse_u32, Error, LineOutcome, ParsedLine, G28, G4, M17, M18};
use kmcu::pin::{Pin, PinTarget};
use kmcu::strutil::{first_token, is_whitespace, str_eq, trim};

#[test]
fn parsed_line_splits_command_and_fields() {
    let p = ParsedLine::parse("  G1 X10 y-2.5 E ; move").unwrap();
    assert_eq!(p.command, "G1");
    assert_eq!(p.fields, vec![('X', "10"), ('Y', "-2.5"), ('E', "")]);
}

#[test]
fn parsed_line_blank_comment_and_malformed() {
    assert!(matches!(ParsedLine::parse(""), Err(Error::BlankLine)));
    assert!(matches!(ParsedLine::parse("   \t "), Err(Error::BlankLine)));
    assert!(matches!(ParsedLine::parse("  ; just a comment"), Err(Error::CommentOnly)));
    assert!(matches!(ParsedLine::parse("G1 10"), Err(Error::MalformedToken(t)) if t == "10"));
    let p = ParsedLine::parse("M105").unwrap();
    assert_eq!(p.command, "M105");
    assert!(p.fields.is_empty());
}

#[test]
fn dwell_parameter() {
    assert_eq!(G4::from_line("G4 P1000").unwrap().p, Some(1000));
    assert_eq!(G4::from_line("g4 p7 ; wait").unwrap().p, Some(7));
    assert_eq!(G4::from_line("G4").unwrap().p, None);
    assert_eq!(G4::from_line("G4 P").unwrap().p, None);
    assert_eq!(G4::from_line("G4 S3 P+12").unwrap().p, Some(12));
}

#[test]
fn dwell_errors() {
    assert_eq!(
        G4::from_line("G4 Pabc").unwrap_err(),
        Error::InvalidValue { value: "abc".to_string(), expected: "u32" }
    );
    assert_eq!(
        G4::from_line("G4 P4294967296").unwrap_err(),
        Error::InvalidValue { value: "4294967296".to_string(), expected: "u32" }
    );
    assert_eq!(G4::from_line("G4 P4294967295").unwrap().p, Some(u32::MAX));
    assert_eq!(G4::from_line("G4 P1 P2").unwrap_err(), Error::Message("duplicate field `p`".to_string()));
    assert_eq!(G4::from_line("G1 P1").unwrap_err(), Error::UnknownCommand("G1".to_string()));
    assert_eq!(G4::from_line("; nothing").unwrap_err(), Error::CommentOnly);
}

#[test]
fn home_flags() {
    let g = G28::from_line("G28").unwrap();
    assert!(!g.x && !g.y && !g.z);
    let g = G28::from_line("G28 X Y ; home only X and Y").unwrap();
    assert!(g.x && g.y && !g.z);
    let g = G28::from_line("G28 Z1 X0").unwrap();
    assert!(!g.x && !g.y && g.z);
    let g = G28::from_line("G28 Xtrue Ytrue ZFalse F100").unwrap();
    assert!(g.x && g.y && !g.z);
    assert_eq!(
        G28::from_line("G28 X2").unwrap_err(),
        Error::InvalidValue { value: "2".to_string(), expected: "bool" }
    );
    assert_eq!(G28::from_line("G28 X X").unwrap_err(), Error::Message("duplicate field `x`".to_string()));
    assert_eq!(G28::from_line("G29").unwrap_err(), Error::UnknownCommand("G29".to_string()));
}

#[test]
fn motor_enable_and_disable_flags() {
    let m = M17::from_line("M17 X Y Z").unwrap();
    assert!(m.x && m.y && m.z && !m.e);
    let m = M18::from_line("M18 E").unwrap();
    assert!(!m.x && !m.y && !m.z && m.e);
    let m = M18::from_line("m18").unwrap();
    assert!(!m.x && !m.y && !m.z && !m.e);
    assert_eq!(M17::from_line("M18").unwrap_err(), Error::UnknownCommand("M18".to_string()));
}

#[test]
fn value_parsers() {
    assert_eq!(parse_u32("0"), Some(0));
    assert_eq!(parse_u32("+42"), Some(42));
    assert_eq!(parse_u32(""), None);
    assert_eq!(parse_u32("+"), None);
    assert_eq!(parse_u32("-1"), None);
    assert_eq!(parse_u32("12a"), None);
    assert_eq!(parse_bool("1"), Some(true));
    assert_eq!(parse_bool("True"), Some(true));
    assert_eq!(parse_bool("FALSE"), Some(false));
    assert_eq!(parse_bool("yes"), None);
    assert!(eq_ignore_ascii_case("g28", "G28"));
    assert!(!eq_ignore_ascii_case("G2", "G28"));
}

#[test]
fn string_helpers() {
    assert_eq!(trim("  a b \t"), "a b");
    assert_eq!(trim("   "), "");
    assert_eq!(first_token("  identify offset=%u"), "identify");
    assert!(is_whitespace('\u{2003}'));
    assert!(!is_whitespace('x'));
    assert!(str_eq("abc", "abc"));
    assert!(!str_eq("abc", "abd"));
}

#[test]
fn pin_parse_forms() {
    let p = Pin::parse("!mcu:PA15").unwrap();
    assert!(p.inverted);
    assert_eq!(p.target, PinTarget::MCU("mcu".to_string()));
    assert_eq!(p.name, "PA15");
    let p = Pin::parse("host:gpio4").unwrap();
    assert!(!p.inverted);
    assert_eq!(p.target, PinTarget::Host);
    assert_eq!(p.name, "gpio4");
    let p = Pin::parse("a:b:c").unwrap();
    assert_eq!(p.target, PinTarget::MCU("a".to_string()));
    assert_eq!(p.name, "b:c");
}

#[test]
fn pin_parse_errors() {
    assert_eq!(
        Pin::parse("!PA15").unwrap_err(),
        "pin must specify a target MCU in '!PA15', e.g. 'host:PA15'"
    );
    assert_eq!(Pin::parse("mcu:").unwrap_err(), "pin name cannot be empty in 'mcu:'");
}

#[test]
fn pin_text_roundtrip() {
    for raw in ["!mcu:PA15", "host:gpio4", "!host:x", ":y", "a:b:c"] {
        assert_eq!(Pin::parse(raw).unwrap().to_string(), raw);
    }
    let p = Pin { inverted: true, target: PinTarget::MCU("toolhead".to_string()), name: "PB3".to_string() };
    assert_eq!(p.to_string(), "!toolhead:PB3");
    let q = Pin::parse(&p.to_string()).unwrap();
    assert_eq!(q.inverted, p.inverted);
    assert_eq!(q.target, p.target);
    assert_eq!(q.name, p.name);
}

#[test]
fn config_defaults() {
    assert!(default_true());
    assert_eq!(default_full_steps(), 200);
    assert_eq!(default_microsteps(), 16);
    assert_eq!(default_timeout(), 100);
    assert_eq!(default_settle(), 10);
    assert_eq!(default_rpmsg_timeout(), 100);
    assert_eq!(default_start_duration(), 0);
    assert_eq!(default_rpmsg_ctrl_path(), "/dev/rpmsg_ctrl-dsp_rproc@0");
    assert_eq!(default_remoteproc_path(), "/sys/class/remoteproc/remoteproc0/state");
    assert_eq!(default_axis_x(), "axis_x");
    assert_eq!(default_axis_y(), "axis_y");
    assert_eq!(default_axis_z(), "axis_z");
    assert_eq!(default_axis_e(), "axis_e");
    assert!(matches!(ConnectionWrapper::default(), ConnectionWrapper::Plain));
}

#[test]
fn reading_a_file_classifies_each_line() {
    assert!(matches!(classify_line(G4::from_line("G4 P5")), LineOutcome::Command(g) if g.p == Some(5)));
    assert!(matches!(classify_line(G4::from_line("  ")), LineOutcome::Skip));
    assert!(matches!(classify_line(G4::from_line("; note")), LineOutcome::Skip));
    assert!(matches!(classify_line(G4::from_line("PRINT_START")), LineOutcome::Macro(m) if m == "PRINT_START"));
    assert!(matches!(classify_line(G4::from_line("G4 Px")), LineOutcome::Stop(Error::InvalidValue { .. })));
}
