//! The device directory: named device entries and the routing of a
//! target token.
//!
//! A target token on the command line is a serial device (it names a
//! COM/tty/ser port), a host (a dotted IPv4 address, optionally with a
//! port), or the name of an entry in the configuration file's device
//! list.  An entry carries a protocol (`modbus` or `iec104`), a
//! transport mode, and per-transport settings; resolving it yields the
//! validated connection target.

use vstd::prelude::*;
use vstd::string::StrSliceExecFns;
use crate::errors::ConfigError;
use crate::literals::is_digit_seq;
use crate::literals::radix_value;
use crate::strutil::find_from;
use crate::strutil::find_char;
use crate::strutil::find_char_from;
use crate::strutil::str_eq;

verus! {

/// What a target token names: a serial device, a network host, or a
/// directory entry.
#[derive(Clone, Copy, Debug, PartialEq, Eq, Structural)]
pub enum DeviceType {
    Device,
    Host,
    Name,
}

/// The transport mode of a connection.
#[derive(Clone, Copy, Debug, PartialEq, Eq, Structural)]
pub enum Mode {
    Tcp,
    Rtu,
    RtuInTcp,
    IEC104,
}

/// The character code of `c` with an ASCII upper-case letter folded to
/// lower case.
pub open spec fn lower_code(c: char) -> int {
    if 'A' as u32 <= c as u32 && c as u32 <= 'Z' as u32 {
        c as u32 + 32
    } else {
        c as u32 as int
    }
}

/// Whether `t` occurs in `s` at position `i`, comparing ASCII
/// case-insensitively.
pub open spec fn contains_ci_at(s: Seq<char>, t: Seq<char>, i: int) -> bool {
    0 <= i && i + t.len() <= s.len() && forall|j: int|
        0 <= j < t.len() ==> lower_code(s[i + j]) == lower_code(t[j])
}

/// Whether `t` occurs anywhere in `s`, comparing ASCII
/// case-insensitively.
pub open spec fn spec_contains_ci(s: Seq<char>, t: Seq<char>) -> bool {
    exists|i: int| contains_ci_at(s, t, i)
}

/// The character code of `c`, upper case folded to lower.
fn char_lower(c: char) -> (r: u32)
    ensures
        r == lower_code(c),
{
    let v = c as u32;
    if 65 <= v && v <= 90 {
        v + 32
    } else {
        v
    }
}

/// Whether `t` occurs anywhere in `s`, comparing ASCII
/// case-insensitively.
pub fn contains_ci(s: &str, t: &str) -> (r: bool)
    ensures
        r == spec_contains_ci(s@, t@),
{
    let n = s.unicode_len();
    let m = t.unicode_len();
    if m > n {
        proof {
            assert forall|i: int| !contains_ci_at(s@, t@, i) by {}
        }
        return false;
    }
    let mut i: usize = 0;
    while i <= n - m
        invariant
            n == s@.len(),
            m == t@.len(),
            m <= n,
            i <= n - m + 1,
            forall|x: int| 0 <= x < i ==> !contains_ci_at(s@, t@, x),
        decreases n - m + 1 - i,
    {
        let mut j: usize = 0;
        let mut matched = true;
        while j < m
            invariant
                n == s@.len(),
                m == t@.len(),
                m <= n,
                i <= n - m,
                j <= m,
                matched ==> forall|y: int| 0 <= y < j ==> lower_code(s@[i + y]) == lower_code(
                    t@[y],
                ),
                !matched ==> !contains_ci_at(s@, t@, i as int),
            decreases m - j,
        {
            let sc = s.get_char(i + j);
            let tc = t.get_char(j);
            if char_lower(sc) != char_lower(tc) {
                proof {
                    assert(lower_code(s@[i + j]) != lower_code(t@[j as int]));
                }
                matched = false;
                j = m;
            } else {
                j = j + 1;
            }
        }
        if matched {
            proof {
                assert(contains_ci_at(s@, t@, i as int));
            }
            return true;
        }
        i = i + 1;
    }
    proof {
        assert forall|x: int| !contains_ci_at(s@, t@, x) by {
            if x >= i {
                assert(x + t@.len() > s@.len());
            }
        }
    }
    false
}

/// Whether `s` is one decimal octet of a dotted address: one to three
/// digits, at most 255, with no leading zero unless it is exactly `0`.
pub open spec fn is_dec_octet(s: Seq<char>) -> bool {
    is_digit_seq(s, 10) && 1 <= s.len() <= 3 && radix_value(s, 10) <= 255 && (s[0] != '0'
        || s.len() == 1)
}

/// Whether `s` is a dotted IPv4 address: four decimal octets separated
/// by single dots, read off the first three dot positions.
pub open spec fn spec_is_ipv4(s: Seq<char>) -> bool {
    match find_from(s, '.', 0) {
        None => false,
        Some(i) => match find_from(s, '.', i + 1) {
            None => false,
            Some(j) => match find_from(s, '.', j + 1) {
                None => false,
                Some(k) => find_from(s, '.', k + 1) is None && is_dec_octet(s.subrange(0, i))
                    && is_dec_octet(s.subrange(i + 1, j)) && is_dec_octet(s.subrange(j + 1, k))
                    && is_dec_octet(s.subrange(k + 1, s.len() as int)),
            },
        },
    }
}

/// Whether `s` is a port number: decimal digits valuing at most 65535.
pub open spec fn is_port(s: Seq<char>) -> bool {
    is_digit_seq(s, 10) && radix_value(s, 10) <= 65535
}

/// Whether `s` names a network host: a dotted IPv4 address, optionally
/// followed by a colon and a port number.
pub open spec fn spec_is_host(s: Seq<char>) -> bool {
    match find_from(s, ':', 0) {
        None => spec_is_ipv4(s),
        Some(c) => spec_is_ipv4(s.subrange(0, c)) && is_port(s.subrange(c + 1, s.len() as int)),
    }
}

/// Whether `s` is one decimal octet (see `is_dec_octet`).
fn check_dec_octet(s: &str, from: usize, to: usize) -> (r: bool)
    requires
        from <= to <= s@.len(),
    ensures
        r == is_dec_octet(s@.subrange(from as int, to as int)),
{
    let ghost oct = s@.subrange(from as int, to as int);
    let len = to - from;
    if len < 1 || len > 3 {
        return false;
    }
    let first = s.get_char(from);
    if first == '0' && len > 1 {
        proof {
            assert(oct[0] == '0');
        }
        return false;
    }
    match crate::literals::parse_dec_range(s, from, to, 255) {
        Some(_) => {
            proof {
                assert(oct[0] == s@[from as int]);
            }
            true
        },
        None => false,
    }
}

/// Whether `s`, between `from` and `to`, is a dotted IPv4 address.
fn check_ipv4(s: &str, from: usize, to: usize) -> (r: bool)
    requires
        from <= to <= s@.len(),
    ensures
        r == spec_is_ipv4(s@.subrange(from as int, to as int)),
{
    let part = s.substring_char(from, to);
    proof {
        assert(part@ =~= s@.subrange(from as int, to as int));
    }
    check_ipv4_whole(part)
}

/// Whether the whole of `s` is a dotted IPv4 address.
fn check_ipv4_whole(s: &str) -> (r: bool)
    ensures
        r == spec_is_ipv4(s@),
{
    let n = s.unicode_len();
    let i = match find_char(s, '.') {
        None => {
            return false;
        },
        Some(i) => i,
    };
    let j = match find_char_from(s, '.', i + 1) {
        None => {
            return false;
        },
        Some(j) => j,
    };
    let k = match find_char_from(s, '.', j + 1) {
        None => {
            return false;
        },
        Some(k) => k,
    };
    match find_char_from(s, '.', k + 1) {
        Some(_) => {
            return false;
        },
        None => {},
    }
    check_dec_octet(s, 0, i) && check_dec_octet(s, i + 1, j) && check_dec_octet(s, j + 1, k)
        && check_dec_octet(s, k + 1, n)
}

/// Whether `s` names a network host (see `spec_is_host`).
pub fn is_host(s: &str) -> (r: bool)
    ensures
        r == spec_is_host(s@),
{
    let n = s.unicode_len();
    proof {
        assert(s@.subrange(0, s@.len() as int) =~= s@);
    }
    match find_char(s, ':') {
        None => check_ipv4(s, 0, n),
        Some(c) => {
            if !check_ipv4(s, 0, c) {
                return false;
            }
            match crate::literals::parse_dec_range(s, c + 1, n, 65535) {
                Some(_) => true,
                None => false,
            }
        },
    }
}

/// What a target token names.  A token that mentions a COM/tty/ser
/// port (case-insensitively) is a serial device; otherwise a dotted
/// IPv4 address with an optional port is a host; everything else is
/// the name of a directory entry.
pub open spec fn spec_device_type(s: Seq<char>) -> DeviceType {
    if spec_contains_ci(s, "com"@) || spec_contains_ci(s, "tty"@) || spec_contains_ci(s, "ser"@) {
        DeviceType::Device
    } else if spec_is_host(s) {
        DeviceType::Host
    } else {
        DeviceType::Name
    }
}

/// Classify a target token (see `spec_device_type`).
pub fn device_type(s: &str) -> (r: DeviceType)
    ensures
        r == spec_device_type(s@),
{
    if contains_ci(s, "com") || contains_ci(s, "tty") || contains_ci(s, "ser") {
        DeviceType::Device
    } else if is_host(s) {
        DeviceType::Host
    } else {
        DeviceType::Name
    }
}

/// Whether two strings agree character for character, ASCII
/// case-insensitively.
pub open spec fn ci_eq(a: Seq<char>, b: Seq<char>) -> bool {
    a.len() == b.len() && forall|i: int| 0 <= i < a.len() ==> lower_code(a[i]) == lower_code(b[i])
}

/// Case-insensitive string equality (see `ci_eq`).
pub fn eq_ignore_case(a: &str, b: &str) -> (r: bool)
    ensures
        r == ci_eq(a@, b@),
{
    let an = a.unicode_len();
    let bn = b.unicode_len();
    if an != bn {
        return false;
    }
    let mut i: usize = 0;
    while i < an
        invariant
            an == a@.len(),
            an == b@.len(),
            i <= an,
            forall|j: int| 0 <= j < i ==> lower_code(a@[j]) == lower_code(b@[j]),
        decreases an - i,
    {
        let ca = a.get_char(i);
        let cb = b.get_char(i);
        if char_lower(ca) != char_lower(cb) {
            return false;
        }
        i = i + 1;
    }
    true
}

/// The name a directory entry goes by.
#[derive(Debug, Default)]
pub struct Signature {
    pub name: String,
}

/// The connection settings of one directory entry.
#[derive(Debug)]
pub struct Remote {
    pub protocol: String,
    pub mode: String,
    pub host: Option<String>,
    pub port: Option<String>,
    pub parity: Option<String>,
    pub device: Option<String>,
    pub baud: Option<u32>,
    pub slave_id: Option<u8>,
    pub data_bit: Option<u8>,
    pub stop_bit: Option<u8>,
    pub timeout_ms: Option<u32>,
}

/// The default protocol of a directory entry that names none.
pub fn default_protocol() -> (r: String)
    ensures
        r@ == "modbus"@,
{
    "modbus".to_owned()
}

/// The default transport mode of a directory entry that names none.
pub fn default_mode() -> (r: String)
    ensures
        r@ == "tcp"@,
{
    "tcp".to_owned()
}

impl Default for Remote {
    /// An entry with the default protocol and mode and nothing else
    /// set.
    fn default() -> (r: Remote)
        ensures
            r.protocol@ == "modbus"@,
            r.mode@ == "tcp"@,
            r.host is None,
            r.port is None,
            r.parity is None,
            r.device is None,
            r.baud is None,
            r.slave_id is None,
            r.data_bit is None,
            r.stop_bit is None,
            r.timeout_ms is None,
    {
        Remote {
            protocol: default_protocol(),
            mode: default_mode(),
            host: None,
            port: None,
            parity: None,
            device: None,
            baud: None,
            slave_id: None,
            data_bit: None,
            stop_bit: None,
            timeout_ms: None,
        }
    }
}

/// One directory entry: its name and its connection settings.
#[derive(Debug)]
pub struct Device {
    pub signature: Signature,
    pub remote: Remote,
}

/// The device directory: the entries of the configuration file.
#[derive(Debug)]
pub struct DeviceList {
    pub devices: Vec<Device>,
}

/// How many entries of the list go by `name`.
pub open spec fn match_count(devs: Seq<Device>, name: Seq<char>) -> int
    decreases devs.len(),
{
    if devs.len() == 0 {
        0
    } else {
        match_count(devs.drop_last(), name) + if devs.last().signature.name@ == name {
            1int
        } else {
            0int
        }
    }
}

/// The match count never leaves 0..=len.
proof fn lemma_match_count_bounds(devs: Seq<Device>, name: Seq<char>)
    ensures
        0 <= match_count(devs, name) <= devs.len(),
    decreases devs.len(),
{
    if devs.len() > 0 {
        lemma_match_count_bounds(devs.drop_last(), name);
    }
}

/// Look `name` up in the directory: the index of the one entry that
/// goes by it.  No entry of that name, and more than one, are each
/// their own error.
pub fn find_device(list: &DeviceList, name: &str) -> (r: Result<usize, ConfigError>)
    ensures
        match r {
            Ok(i) => match_count(list.devices@, name@) == 1 && 0 <= i < list.devices@.len()
                && list.devices@[i as int].signature.name@ == name@,
            Err(e) => (e == ConfigError::NoDeviceFound && match_count(list.devices@, name@) == 0) || (
            e == ConfigError::MultipleDevicesFound && match_count(list.devices@, name@) >= 2),
        },
{
    let n = list.devices.len();
    let mut count: usize = 0;
    let mut idx: usize = 0;
    let mut i: usize = 0;
    while i < n
        invariant
            n == list.devices@.len(),
            i <= n,
            count == match_count(list.devices@.take(i as int), name@),
            count <= i,
            count >= 1 ==> 0 <= idx < i && list.devices@[idx as int].signature.name@ == name@,
        decreases n - i,
    {
        proof {
            lemma_match_count_bounds(list.devices@.take(i as int), name@);
        }
        if str_eq(list.devices[i].signature.name.as_str(), name) {
            if count == 0 {
                idx = i;
            }
            count = count + 1;
        }
        proof {
            let taken = list.devices@.take(i + 1);
            assert(taken.drop_last() =~= list.devices@.take(i as int));
            assert(taken.last() == list.devices@[i as int]);
        }
        i = i + 1;
    }
    proof {
        assert(list.devices@.take(n as int) =~= list.devices@);
    }
    if count == 0 {
        Err(ConfigError::NoDeviceFound)
    } else if count == 1 {
        Ok(idx)
    } else {
        Err(ConfigError::MultipleDevicesFound)
    }
}

/// The transport mode a directory entry's protocol and mode name.  The
/// modbus protocol offers the serial, TCP and RTU-in-TCP transports;
/// the event-driven protocol has one transport of its own.
pub open spec fn spec_mode_of(protocol: Seq<char>, mode: Seq<char>) -> Result<Mode, ConfigError> {
    if ci_eq(protocol, "modbus"@) {
        if ci_eq(mode, "rtu"@) {
            Ok(Mode::Rtu)
        } else if ci_eq(mode, "tcp"@) {
            Ok(Mode::Tcp)
        } else if ci_eq(mode, "rtu_in_tcp"@) {
            Ok(Mode::RtuInTcp)
        } else {
            Err(ConfigError::UnsupportedMode)
        }
    } else if ci_eq(protocol, "iec104"@) {
        Ok(Mode::IEC104)
    } else {
        Err(ConfigError::UnsupportedProtocol)
    }
}

/// A resolved connection target: the transport mode and the settings
/// that apply to it.  Serial settings stay unset for network modes and
/// the other way round.
#[derive(Debug, PartialEq)]
pub struct ResolvedTarget {
    pub mode: Mode,
    pub host: Option<String>,
    pub port: Option<u16>,
    pub device: Option<String>,
    pub baud: Option<u32>,
    pub data_bit: Option<u8>,
    pub stop_bit: Option<u8>,
    pub parity: Option<String>,
    pub slave_id: Option<u8>,
    pub timeout_ms: Option<u32>,
}

/// Whether two optional strings agree: both unset, or set to the same
/// characters.
pub open spec fn opt_string_eq(a: Option<String>, b: Option<String>) -> bool {
    match (a, b) {
        (Option::None, Option::None) => true,
        (Option::Some(x), Option::Some(y)) => x@ == y@,
        _ => false,
    }
}

/// Resolve one directory entry into a connection target.  The serial
/// transport requires the device field; the network transports require
/// the host field; a port that is not a decimal 16-bit number is an
/// invalid literal.  Missing optional settings stay unset for the
/// caller's defaults to fill.
pub fn resolve_remote(remote: &Remote) -> (r: Result<ResolvedTarget, ConfigError>)
    ensures
        match spec_mode_of(remote.protocol@, remote.mode@) {
            Err(e) => r == Err::<ResolvedTarget, ConfigError>(e),
            Ok(m) => if m is Rtu {
                match remote.device {
                    Option::None => r == Err::<ResolvedTarget, ConfigError>(
                        ConfigError::MissingField,
                    ),
                    Option::Some(d) => r matches Ok(t) && t.mode == m && opt_string_eq(
                        t.device,
                        remote.device,
                    ) && t.host is None && t.port is None && t.baud == remote.baud && t.data_bit
                        == remote.data_bit && t.stop_bit == remote.stop_bit && opt_string_eq(
                        t.parity,
                        remote.parity,
                    ) && t.slave_id == remote.slave_id && t.timeout_ms == remote.timeout_ms,
                }
            } else {
                match remote.host {
                    Option::None => r == Err::<ResolvedTarget, ConfigError>(
                        ConfigError::MissingField,
                    ),
                    Option::Some(h) => match remote.port {
                        Option::Some(p) => if is_port(p@) {
                            r matches Ok(t) && t.mode == m && opt_string_eq(t.host, remote.host)
                                && t.port == Some(radix_value(p@, 10) as u16) && t.device is None
                                && t.baud is None && t.data_bit is None && t.stop_bit is None
                                && t.parity is None && t.slave_id == remote.slave_id && t.timeout_ms
                                == remote.timeout_ms
                        } else {
                            r == Err::<ResolvedTarget, ConfigError>(ConfigError::InvalidLiteral)
                        },
                        Option::None => r matches Ok(t) && t.mode == m && opt_string_eq(
                            t.host,
                            remote.host,
                        ) && t.port is None && t.device is None && t.baud is None && t.data_bit
                            is None && t.stop_bit is None && t.parity is None && t.slave_id
                            == remote.slave_id && t.timeout_ms == remote.timeout_ms,
                    },
                }
            },
        },
{
    let mode = if eq_ignore_case(remote.protocol.as_str(), "modbus") {
        if eq_ignore_case(remote.mode.as_str(), "rtu") {
            Mode::Rtu
        } else if eq_ignore_case(remote.mode.as_str(), "tcp") {
            Mode::Tcp
        } else if eq_ignore_case(remote.mode.as_str(), "rtu_in_tcp") {
            Mode::RtuInTcp
        } else {
            return Err(ConfigError::UnsupportedMode);
        }
    } else if eq_ignore_case(remote.protocol.as_str(), "iec104") {
        Mode::IEC104
    } else {
        return Err(ConfigError::UnsupportedProtocol);
    };
    match mode {
        Mode::Rtu => {
            let device = match &remote.device {
                None => {
                    return Err(ConfigError::MissingField);
                },
                Some(d) => Some(d.clone()),
            };
            let parity = match &remote.parity {
                None => None,
                Some(p) => Some(p.clone()),
            };
            Ok(
                ResolvedTarget {
                    mode,
                    host: None,
                    port: None,
                    device,
                    baud: remote.baud,
                    data_bit: remote.data_bit,
                    stop_bit: remote.stop_bit,
                    parity,
                    slave_id: remote.slave_id,
                    timeout_ms: remote.timeout_ms,
                },
            )
        },
        _ => {
            let host = match &remote.host {
                None => {
                    return Err(ConfigError::MissingField);
                },
                Some(h) => Some(h.clone()),
            };
            let port: Option<u16> = match &remote.port {
                None => None,
                Some(p) => {
                    let pn = p.as_str().unicode_len();
                    proof {
                        assert(p@.subrange(0, p@.len() as int) =~= p@);
                    }
                    match crate::literals::parse_dec_range(p.as_str(), 0, pn, 65535) {
                        Some(v) => Some(v as u16),
                        None => {
                            return Err(ConfigError::InvalidLiteral);
                        },
                    }
                },
            };
            Ok(
                ResolvedTarget {
                    mode,
                    host,
                    port,
                    device: None,
                    baud: None,
                    data_bit: None,
                    stop_bit: None,
                    parity: None,
                    slave_id: remote.slave_id,
                    timeout_ms: remote.timeout_ms,
                },
            )
        },
    }
}

} // verus!
