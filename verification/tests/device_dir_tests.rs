use dpoll::device_dir::{
    device_type, eq_ignore_case, find_device, resolve_remote, Device, DeviceList, DeviceType,
    Mode, Remote, Signature,
};
use dpoll::errors::ConfigError;

fn remote(protocol: &str, mode: &str) -> Remote {
    Remote {
        protocol: protocol.to_string(),
        mode: mode.to_string(),
        ..Default::default()
    }
}

fn entry(name: &str) -> Device {
    Device {
        signature: Signature { name: name.to_string() },
        remote: Remote::default(),
    }
}

#[test]
fn serial_tokens_are_devices() {
    assert_eq!(device_type("COM1"), DeviceType::Device);
    assert_eq!(device_type("com2"), DeviceType::Device);
    assert_eq!(device_type("/dev/ttyUSB0"), DeviceType::Device);
    assert_eq!(device_type("/dev/ttyS1"), DeviceType::Device);
    assert_eq!(device_type("/dev/ser1"), DeviceType::Device);
}

#[test]
fn dotted_addresses_are_hosts() {
    assert_eq!(device_type("192.168.10.13"), DeviceType::Host);
    assert_eq!(device_type("192.168.10.13:502"), DeviceType::Host);
    assert_eq!(device_type("0.0.0.0"), DeviceType::Host);
    assert_eq!(device_type("255.255.255.255:65535"), DeviceType::Host);
}

#[test]
fn everything_else_is_a_directory_name() {
    assert_eq!(device_type("em2_0"), DeviceType::Name);
    assert_eq!(device_type("999.1.1.1"), DeviceType::Name);
    assert_eq!(device_type("1.2.3"), DeviceType::Name);
    assert_eq!(device_type("1.2.3.4.5"), DeviceType::Name);
    assert_eq!(device_type("01.2.3.4"), DeviceType::Name);
    assert_eq!(device_type("1.2.3.4:70000"), DeviceType::Name);
    assert_eq!(device_type("1.2.3.4:"), DeviceType::Name);
    assert_eq!(device_type(""), DeviceType::Name);
}

#[test]
fn case_insensitive_comparison() {
    assert!(eq_ignore_case("MODBUS", "modbus"));
    assert!(eq_ignore_case("Iec104", "iec104"));
    assert!(!eq_ignore_case("modbus", "modbu"));
    assert!(!eq_ignore_case("rtu", "tcp"));
}

#[test]
fn lookup_finds_the_one_entry() {
    let list = DeviceList { devices: vec![entry("alpha"), entry("beta"), entry("gamma")] };
    let i = find_device(&list, "beta").unwrap();
    assert_eq!(i, 1);
    assert_eq!(find_device(&list, "delta"), Err(ConfigError::NoDeviceFound));
}

#[test]
fn duplicate_names_are_ambiguous() {
    let list = DeviceList { devices: vec![entry("alpha"), entry("alpha")] };
    assert_eq!(find_device(&list, "alpha"), Err(ConfigError::MultipleDevicesFound));
}

#[test]
fn resolving_a_tcp_entry() {
    let mut r = remote("modbus", "tcp");
    r.host = Some("10.0.0.1".to_string());
    r.port = Some("1502".to_string());
    r.slave_id = Some(7);
    r.timeout_ms = Some(250);
    let t = resolve_remote(&r).unwrap();
    assert_eq!(t.mode, Mode::Tcp);
    assert_eq!(t.host.as_deref(), Some("10.0.0.1"));
    assert_eq!(t.port, Some(1502));
    assert_eq!(t.slave_id, Some(7));
    assert_eq!(t.timeout_ms, Some(250));
    assert_eq!(t.device, None);
    assert_eq!(t.baud, None);
}

#[test]
fn resolving_a_serial_entry() {
    let mut r = remote("Modbus", "RTU");
    r.device = Some("/dev/ttyUSB0".to_string());
    r.baud = Some(9600);
    r.data_bit = Some(8);
    r.stop_bit = Some(1);
    r.parity = Some("none".to_string());
    let t = resolve_remote(&r).unwrap();
    assert_eq!(t.mode, Mode::Rtu);
    assert_eq!(t.device.as_deref(), Some("/dev/ttyUSB0"));
    assert_eq!(t.baud, Some(9600));
    assert_eq!(t.data_bit, Some(8));
    assert_eq!(t.stop_bit, Some(1));
    assert_eq!(t.parity.as_deref(), Some("none"));
    assert_eq!(t.host, None);
    assert_eq!(t.port, None);
}

#[test]
fn resolving_the_event_driven_protocol() {
    let mut r = remote("IEC104", "tcp");
    r.host = Some("10.0.0.2".to_string());
    let t = resolve_remote(&r).unwrap();
    assert_eq!(t.mode, Mode::IEC104);
    assert_eq!(t.host.as_deref(), Some("10.0.0.2"));
    assert_eq!(t.port, None);

    let mut r2 = remote("modbus", "rtu_in_tcp");
    r2.host = Some("10.0.0.3".to_string());
    let t2 = resolve_remote(&r2).unwrap();
    assert_eq!(t2.mode, Mode::RtuInTcp);
}

#[test]
fn resolution_errors() {
    assert_eq!(resolve_remote(&remote("dnp3", "tcp")), err_of(ConfigError::UnsupportedProtocol));
    assert_eq!(resolve_remote(&remote("modbus", "udp")), err_of(ConfigError::UnsupportedMode));
    // a tcp entry without a host, and an rtu entry without a device
    assert_eq!(resolve_remote(&remote("modbus", "tcp")), err_of(ConfigError::MissingField));
    assert_eq!(resolve_remote(&remote("modbus", "rtu")), err_of(ConfigError::MissingField));
    let mut r = remote("modbus", "tcp");
    r.host = Some("10.0.0.1".to_string());
    r.port = Some("502x".to_string());
    assert_eq!(resolve_remote(&r), err_of(ConfigError::InvalidLiteral));
}

#[test]
fn default_entry_speaks_modbus_over_tcp() {
    let r = Remote::default();
    assert_eq!(r.protocol, "modbus");
    assert_eq!(r.mode, "tcp");
    assert_eq!(r.host, None);
    assert_eq!(r.device, None);
}

fn err_of(
    e: ConfigError,
) -> Result<dpoll::device_dir::ResolvedTarget, ConfigError> {
    Err(e)
}
