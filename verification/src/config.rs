//! Configuration validation: the compute half of startup.
//!
//! The surrounding application reads the command line and the YAML file
//! and looks up the host interface's MAC; this module owns every rule
//! about what the values mean: a backend MAC must decompose into exactly
//! six colon-separated hexadecimal byte pairs, the balanced ports default
//! to port 80, the log file and interface have fixed defaults, and the
//! configuration file must carry a YAML extension. A validation failure
//! yields a `ConfigError` that the application reports before exiting.

use vstd::prelude::*;
use crate::server::Server;

verus! {

/// Where log lines go when the file names no log file.
pub const DEFAULT_LOG_FILE: &'static str = "/var/log/aeolus.log";

/// The interface frames are balanced on when the file names none.
pub const DEFAULT_NETWORK_INTERFACE: &'static str = "wlp1s0";

/// The one port balanced by default when the file names no ports.
pub const DEFAULT_PORT: u16 = 80;

/// A fatal startup diagnostic; never produced after startup.
#[derive(Debug)]
pub struct ConfigError {
    pub description: String,
}

impl ConfigError {
    pub fn new(description: &str) -> (e: ConfigError)
        ensures
            e.description@ == description@,
    {
        ConfigError { description: description.to_owned() }
    }
}

/// One backend as it stands in the file: the MAC still text (as bytes),
/// the IPv4 address already a host-order integer.
#[derive(Debug)]
pub struct RawServer {
    pub mac: Vec<u8>,
    pub ip: u32,
}

/// The validated configuration the core runs on.
#[derive(Debug)]
pub struct Config {
    pub ports: Vec<u16>,
    pub servers: Vec<Server>,
    pub log_file: String,
    pub iface: String,
    pub host_mac_address: [u8; 6],
}

/// ASCII hexadecimal digit, either case.
pub open spec fn is_hex_digit(b: u8) -> bool {
    (0x30 <= b <= 0x39) || (0x41 <= b <= 0x46) || (0x61 <= b <= 0x66)
}

/// The numeric value of one hexadecimal digit.
pub open spec fn hex_value(b: u8) -> u8
    recommends
        is_hex_digit(b),
{
    if 0x30 <= b <= 0x39 {
        (b - 0x30) as u8
    } else if 0x41 <= b <= 0x46 {
        (b - 0x41 + 10) as u8
    } else {
        (b - 0x61 + 10) as u8
    }
}

/// Parse `groups_left` colon-separated groups of one or two hexadecimal
/// digits out of `s`, which must be consumed exactly; `None` on any other
/// shape. This is the whole grammar of a textual MAC address.
pub open spec fn spec_parse_mac_groups(s: Seq<u8>, groups_left: int) -> Option<Seq<u8>>
    recommends
        groups_left >= 1,
    decreases groups_left,
{
    if groups_left < 1 {
        None
    } else if s.len() == 0 || !is_hex_digit(s[0]) {
        None
    } else {
        let two = s.len() >= 2 && is_hex_digit(s[1]);
        let v = if two {
            (hex_value(s[0]) * 0x10 + hex_value(s[1])) as u8
        } else {
            hex_value(s[0])
        };
        let rest = if two {
            s.skip(2)
        } else {
            s.skip(1)
        };
        if groups_left == 1 {
            if rest.len() == 0 {
                Some(seq![v])
            } else {
                None
            }
        } else if rest.len() > 0 && rest[0] == 0x3a {
            match spec_parse_mac_groups(rest.skip(1), groups_left - 1) {
                Option::None => None,
                Option::Some(tail) => Some(seq![v] + tail),
            }
        } else {
            None
        }
    }
}

/// The six bytes denoted by a textual MAC address, or `None` when the
/// text is not exactly six colon-separated hexadecimal byte pairs.
pub open spec fn spec_parse_mac(s: Seq<u8>) -> Option<Seq<u8>> {
    spec_parse_mac_groups(s, 6)
}

/// A successful parse yields exactly one byte per group.
pub proof fn lemma_parse_mac_groups_len(s: Seq<u8>, groups_left: int)
    ensures
        spec_parse_mac_groups(s, groups_left) matches Some(v) ==> v.len() == groups_left,
    decreases groups_left,
{
    if groups_left >= 2 && s.len() > 0 && is_hex_digit(s[0]) {
        let two = s.len() >= 2 && is_hex_digit(s[1]);
        let rest = if two {
            s.skip(2)
        } else {
            s.skip(1)
        };
        if rest.len() > 0 && rest[0] == 0x3a {
            lemma_parse_mac_groups_len(rest.skip(1), groups_left - 1);
        }
    }
}

fn is_hex_digit_exec(b: u8) -> (r: bool)
    ensures
        r == is_hex_digit(b),
{
    (b >= 0x30 && b <= 0x39) || (b >= 0x41 && b <= 0x46) || (b >= 0x61 && b <= 0x66)
}

fn hex_value_exec(b: u8) -> (r: u8)
    requires
        is_hex_digit(b),
    ensures
        r == hex_value(b),
        r <= 0xf,
{
    if b >= 0x30 && b <= 0x39 {
        b - 0x30
    } else if b >= 0x41 && b <= 0x46 {
        b - 0x41 + 10
    } else {
        b - 0x61 + 10
    }
}

/// Parse the remaining groups of a MAC starting at byte `i`.
fn parse_mac_from(s: &Vec<u8>, i: usize, groups_left: usize) -> (r: Option<Vec<u8>>)
    requires
        i <= s.len(),
        1 <= groups_left,
    ensures
        (r is Some) == (spec_parse_mac_groups(s@.skip(i as int), groups_left as int) is Some),
        r matches Some(v) ==> Some(v@) == spec_parse_mac_groups(
            s@.skip(i as int),
            groups_left as int,
        ),
    decreases groups_left,
{
    let ghost rest0 = s@.skip(i as int);
    if i == s.len() {
        return None;
    }
    if !is_hex_digit_exec(s[i]) {
        return None;
    }
    let two = i + 1 < s.len() && is_hex_digit_exec(s[i + 1]);
    let v: u8 = if two {
        hex_value_exec(s[i]) * 0x10 + hex_value_exec(s[i + 1])
    } else {
        hex_value_exec(s[i])
    };
    let next: usize = if two {
        i + 2
    } else {
        i + 1
    };
    proof {
        assert(rest0.skip(
            if two {
                2int
            } else {
                1int
            },
        ) =~= s@.skip(next as int));
    }
    if groups_left == 1 {
        if next == s.len() {
            let mut out: Vec<u8> = Vec::new();
            out.push(v);
            proof {
                assert(out@ =~= seq![v]);
            }
            Some(out)
        } else {
            None
        }
    } else {
        if next < s.len() && s[next] == 0x3a {
            proof {
                assert(s@.skip(next as int).skip(1) =~= s@.skip(next as int + 1));
            }
            match parse_mac_from(s, next + 1, groups_left - 1) {
                Option::None => None,
                Option::Some(tail) => {
                    let ghost tail_view = tail@;
                    let mut out = tail;
                    out.insert(0, v);
                    proof {
                        assert(out@ =~= seq![v] + tail_view);
                    }
                    Some(out)
                },
            }
        } else {
            None
        }
    }
}

/// Parse a textual MAC address (as bytes) into its six bytes; `None`
/// exactly when the text is not six colon-separated hexadecimal pairs.
pub fn parse_mac(s: &Vec<u8>) -> (r: Option<[u8; 6]>)
    ensures
        (r is Some) == (spec_parse_mac(s@) is Some),
        r matches Some(mac) ==> Some(mac@) == spec_parse_mac(s@),
{
    proof {
        assert(s@.skip(0) =~= s@);
    }
    match parse_mac_from(s, 0, 6) {
        Option::None => None,
        Option::Some(v) => {
            proof {
                lemma_parse_mac_groups_len(s@, 6);
            }
            let mac: [u8; 6] = [v[0], v[1], v[2], v[3], v[4], v[5]];
            proof {
                assert(mac@ =~= v@);
            }
            Some(mac)
        },
    }
}

/// Every configured backend's MAC text is well-formed.
pub open spec fn all_macs_valid(raw: Seq<RawServer>) -> bool {
    forall|i: int| 0 <= i < raw.len() ==> (#[trigger] spec_parse_mac(raw[i].mac@)) is Some
}

/// Turn the raw backend list into servers, all initially healthy, or
/// reject the whole configuration on the first malformed MAC.
pub fn map_servers(raw_servers: &Vec<RawServer>) -> (r: Result<Vec<Server>, ConfigError>)
    ensures
        (r is Ok) == all_macs_valid(raw_servers@),
        r matches Ok(servers) ==> {
            &&& servers@.len() == raw_servers@.len()
            &&& forall|i: int|
                0 <= i < servers@.len() ==> {
                    &&& Some((#[trigger] servers@[i]).mac_address@) == spec_parse_mac(
                        raw_servers@[i].mac@,
                    )
                    &&& servers@[i].ip_address == raw_servers@[i].ip
                    &&& servers@[i].spec_healthy()
                }
        },
        r matches Err(e) ==> e.description@ == "Invalid MAC address."@,
{
    let mut servers: Vec<Server> = Vec::new();
    let mut i: usize = 0;
    while i < raw_servers.len()
        invariant
            i <= raw_servers@.len(),
            servers@.len() == i as int,
            forall|j: int|
                0 <= j < i as int ==> (#[trigger] spec_parse_mac(raw_servers@[j].mac@)) is Some,
            forall|j: int|
                0 <= j < i as int ==> {
                    &&& Some((#[trigger] servers@[j]).mac_address@) == spec_parse_mac(
                        raw_servers@[j].mac@,
                    )
                    &&& servers@[j].ip_address == raw_servers@[j].ip
                    &&& servers@[j].spec_healthy()
                },
        decreases raw_servers@.len() - i,
    {
        match parse_mac(&raw_servers[i].mac) {
            Option::None => {
                return Err(ConfigError::new("Invalid MAC address."));
            },
            Option::Some(mac) => {
                let server = Server::new(mac, raw_servers[i].ip);
                servers.push(server);
            },
        }
        i = i + 1;
    }
    Ok(servers)
}

impl Config {
    /// Validate the values read from the configuration file and assemble
    /// the configuration the core runs on: backend MACs parsed (rejecting
    /// the whole file on a malformed one), ports defaulting to the single
    /// default port, log file and interface defaulting to their fixed
    /// paths, and the host MAC taken as handed in by the interface lookup.
    pub fn parse(
        ports: Option<Vec<u16>>,
        servers: Vec<RawServer>,
        logfile: Option<String>,
        iface: Option<String>,
        host_mac_address: [u8; 6],
    ) -> (r: Result<Config, ConfigError>)
        ensures
            (r is Ok) == all_macs_valid(servers@),
            r matches Ok(c) ==> {
                &&& match ports {
                    Option::Some(p) => c.ports == p,
                    Option::None => c.ports@ == seq![DEFAULT_PORT],
                }
                &&& c.servers@.len() == servers@.len()
                &&& forall|i: int|
                    0 <= i < c.servers@.len() ==> {
                        &&& Some((#[trigger] c.servers@[i]).mac_address@) == spec_parse_mac(
                            servers@[i].mac@,
                        )
                        &&& c.servers@[i].ip_address == servers@[i].ip
                        &&& c.servers@[i].spec_healthy()
                    }
                &&& match logfile {
                    Option::Some(l) => c.log_file == l,
                    Option::None => c.log_file@ == DEFAULT_LOG_FILE@,
                }
                &&& match iface {
                    Option::Some(f) => c.iface == f,
                    Option::None => c.iface@ == DEFAULT_NETWORK_INTERFACE@,
                }
                &&& c.host_mac_address == host_mac_address
            },
            r matches Err(e) ==> e.description@ == "Invalid MAC address."@,
    {
        let mapped = match map_servers(&servers) {
            Result::Ok(s) => s,
            Result::Err(e) => {
                return Err(e);
            },
        };
        let ports = match ports {
            Option::Some(p) => p,
            Option::None => {
                let mut v: Vec<u16> = Vec::new();
                v.push(DEFAULT_PORT);
                proof {
                    assert(v@ =~= seq![DEFAULT_PORT]);
                }
                v
            },
        };
        let log_file = match logfile {
            Option::Some(l) => l,
            Option::None => DEFAULT_LOG_FILE.to_owned(),
        };
        let iface = match iface {
            Option::Some(f) => f,
            Option::None => DEFAULT_NETWORK_INTERFACE.to_owned(),
        };
        Ok(Config { ports, servers: mapped, log_file, iface, host_mac_address })
    }
}

/// The lower-cased form of an ASCII byte; other bytes unchanged.
pub open spec fn ascii_lower(b: u8) -> u8 {
    if 0x41 <= b <= 0x5a {
        (b + 0x20) as u8
    } else {
        b
    }
}

/// A byte string lower-cased byte by byte.
pub open spec fn lower_bytes(s: Seq<u8>) -> Seq<u8> {
    Seq::new(s.len(), |i: int| ascii_lower(s[i]))
}

/// The bytes of ".yaml".
pub open spec fn yaml_ext() -> Seq<u8> {
    seq![0x2eu8, 0x79u8, 0x61u8, 0x6du8, 0x6cu8]
}

/// The bytes of ".yml".
pub open spec fn yml_ext() -> Seq<u8> {
    seq![0x2eu8, 0x79u8, 0x6du8, 0x6cu8]
}

pub open spec fn ends_with(s: Seq<u8>, suffix: Seq<u8>) -> bool {
    s.len() >= suffix.len() && s.skip(s.len() - suffix.len()) == suffix
}

/// The file name, case-insensitively, carries a YAML extension.
pub open spec fn has_yaml_extension(name: Seq<u8>) -> bool {
    ends_with(lower_bytes(name), yaml_ext()) || ends_with(lower_bytes(name), yml_ext())
}

fn lower_byte(b: u8) -> (r: u8)
    ensures
        r == ascii_lower(b),
{
    if b >= 0x41 && b <= 0x5a {
        b + 0x20
    } else {
        b
    }
}

/// True when the configuration file name (as bytes) ends, in any case, in
/// ".yaml" or ".yml"; any other name is rejected before it is opened.
pub fn is_yaml_file(name: &Vec<u8>) -> (r: bool)
    ensures
        r == has_yaml_extension(name@),
{
    let n = name.len();
    let ghost low = lower_bytes(name@);
    let yaml = n >= 5 && lower_byte(name[n - 5]) == 0x2e && lower_byte(name[n - 4]) == 0x79
        && lower_byte(name[n - 3]) == 0x61 && lower_byte(name[n - 2]) == 0x6d && lower_byte(
        name[n - 1],
    ) == 0x6c;
    let yml = n >= 4 && lower_byte(name[n - 4]) == 0x2e && lower_byte(name[n - 3]) == 0x79
        && lower_byte(name[n - 2]) == 0x6d && lower_byte(name[n - 1]) == 0x6c;
    proof {
        if yaml {
            assert(low.skip(low.len() - 5) =~= yaml_ext());
        }
        if yml {
            assert(low.skip(low.len() - 4) =~= yml_ext());
        }
        if !yaml && ends_with(low, yaml_ext()) {
            assert(low.skip(low.len() - 5)[0] == low[n - 5]);
            assert(low.skip(low.len() - 5)[1] == low[n - 4]);
            assert(low.skip(low.len() - 5)[2] == low[n - 3]);
            assert(low.skip(low.len() - 5)[3] == low[n - 2]);
            assert(low.skip(low.len() - 5)[4] == low[n - 1]);
        }
        if !yml && ends_with(low, yml_ext()) {
            assert(low.skip(low.len() - 4)[0] == low[n - 4]);
            assert(low.skip(low.len() - 4)[1] == low[n - 3]);
            assert(low.skip(low.len() - 4)[2] == low[n - 2]);
            assert(low.skip(low.len() - 4)[3] == low[n - 1]);
        }
    }
    yaml || yml
}

} // verus!
