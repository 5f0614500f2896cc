//! The Govee LAN API: devices that answer UDP scans on the local network.
//! This module holds the data of the protocol and the decisions of
//! discovery; the sockets are driven outside this library.

use vstd::prelude::*;
use crate::strings::{chars_of, string_of, eq_ignore_ascii_case, spec_lower_seq, str_eq, trim_chars, spec_trim, owned};
use crate::env::{EnvVar, SettingError, parse_unsigned, spec_parse_unsigned, spec_int_error_message};

verus! {

/// The port on which govee devices listen for scan requests.
pub const SCAN_PORT: u16 = 4001;
/// The port on which a client needs to listen to receive responses from
/// govee devices.
pub const LISTEN_PORT: u16 = 4002;
/// The port on which govee devices listen for control requests.
pub const CMD_PORT: u16 = 4003;

/// An IP address, as the number of its bits.
#[derive(Clone, Copy, Debug, PartialEq, Eq, Hash, Structural)]
pub enum IpAddress {
    V4(u32),
    V6(u128),
}

/// The multicast group of which govee LAN-API enabled devices are members:
/// 239.255.255.250.
pub open spec fn spec_multicast() -> IpAddress {
    IpAddress::V4(0xEFFF_FFFA)
}

/// The IPv4 global broadcast address 255.255.255.255.
pub open spec fn spec_broadcast() -> IpAddress {
    IpAddress::V4(0xFFFF_FFFF)
}

/// The multicast group of which govee LAN-API enabled devices are members.
pub fn multicast_address() -> (r: IpAddress)
    ensures
        r == spec_multicast(),
{
    IpAddress::V4(0xEFFF_FFFA)
}

/// The IPv4 global broadcast address.
pub fn broadcast_address() -> (r: IpAddress)
    ensures
        r == spec_broadcast(),
{
    IpAddress::V4(0xFFFF_FFFF)
}

impl IpAddress {
    /// The address is the unspecified address of its family.
    pub fn is_unspecified(&self) -> (r: bool)
        ensures
            r == match *self {
                IpAddress::V4(v) => v == 0,
                IpAddress::V6(v) => v == 0,
            },
    {
        match self {
            IpAddress::V4(v) => *v == 0,
            IpAddress::V6(v) => *v == 0,
        }
    }

    /// The address is a multicast address (224.0.0.0/4, or ff00::/8).
    pub fn is_multicast(&self) -> (r: bool)
        ensures
            r == match *self {
                IpAddress::V4(v) => 0xE000_0000 <= v && v <= 0xEFFF_FFFF,
                IpAddress::V6(v) => v >= 0xff00_0000_0000_0000_0000_0000_0000_0000u128,
            },
    {
        match self {
            IpAddress::V4(v) => 0xE000_0000 <= *v && *v <= 0xEFFF_FFFF,
            IpAddress::V6(v) => *v >= 0xff00_0000_0000_0000_0000_0000_0000_0000u128,
        }
    }
}

/// A text that is not a boolean.
#[derive(Clone, Debug)]
pub struct InvalidBoolean {
    /// The text
    pub text: String,
}

/// The texts read as true.
pub open spec fn spec_is_true_text(s: Seq<char>) -> bool {
    spec_lower_seq(s) == spec_lower_seq("true"@) || spec_lower_seq(s) == spec_lower_seq("yes"@)
        || spec_lower_seq(s) == spec_lower_seq("on"@) || s == "1"@
}

/// The texts read as false.
pub open spec fn spec_is_false_text(s: Seq<char>) -> bool {
    spec_lower_seq(s) == spec_lower_seq("false"@) || spec_lower_seq(s) == spec_lower_seq("no"@)
        || spec_lower_seq(s) == spec_lower_seq("off"@) || s == "0"@
}

/// Reads a boolean setting: true/yes/on/1 or false/no/off/0, ignoring ASCII
/// case.
pub fn truthy(s: &str) -> (r: Result<bool, InvalidBoolean>)
    ensures
        spec_is_true_text(s@) ==> r matches Ok(true),
        !spec_is_true_text(s@) && spec_is_false_text(s@) ==> r matches Ok(false),
        !spec_is_true_text(s@) && !spec_is_false_text(s@) ==> (r matches Err(e) && e.text@ == s@),
{
    if eq_ignore_ascii_case(s, "true") || eq_ignore_ascii_case(s, "yes") || eq_ignore_ascii_case(
        s,
        "on",
    ) || str_eq(s, "1") {
        Ok(true)
    } else if eq_ignore_ascii_case(s, "false") || eq_ignore_ascii_case(s, "no")
        || eq_ignore_ascii_case(s, "off") || str_eq(s, "0") {
        Ok(false)
    } else {
        Err(InvalidBoolean { text: owned(s) })
    }
}

/// Where to send discovery scans.
pub struct DiscoOptions {
    /// Use the MULTICAST address defined in the LAN protocol
    pub enable_multicast: bool,
    /// Send to this list of additional addresses, which may
    /// include multicast addresses
    pub additional_addresses: Vec<IpAddress>,
    /// Enumerate all interfaces, and for each one that has
    /// a broadcast address, broadcast to it
    pub broadcast_all_interfaces: bool,
    /// Broadcast to the global broadcast address
    pub global_broadcast: bool,
}

impl DiscoOptions {
    /// Discovery would send no scan at all.
    pub fn is_empty(&self) -> (r: bool)
        ensures
            r == (!self.enable_multicast && self.additional_addresses@.len() == 0
                && !self.broadcast_all_interfaces && !self.global_broadcast),
    {
        !self.enable_multicast && self.additional_addresses.len() == 0
            && !self.broadcast_all_interfaces && !self.global_broadcast
    }
}

impl Default for DiscoOptions {
    fn default() -> (r: Self)
        ensures
            r.enable_multicast,
            r.additional_addresses@.len() == 0,
            !r.broadcast_all_interfaces,
            !r.global_broadcast,
    {
        DiscoOptions {
            enable_multicast: true,
            additional_addresses: Vec::new(),
            broadcast_all_interfaces: false,
            global_broadcast: false,
        }
    }
}

/// A network interface, as far as discovery cares.
#[derive(Clone, Copy, Debug)]
pub struct InterfaceInfo {
    pub is_loopback: bool,
    pub broadcast: Option<IpAddress>,
}

/// The broadcast addresses of the non-loopback interfaces that have one.
pub open spec fn interface_broadcasts(ifaces: Seq<InterfaceInfo>) -> Seq<IpAddress>
    decreases ifaces.len(),
{
    if ifaces.len() == 0 {
        Seq::empty()
    } else {
        let rest = interface_broadcasts(ifaces.drop_last());
        let last = ifaces.last();
        if !last.is_loopback && last.broadcast is Some {
            rest.push(last.broadcast->0)
        } else {
            rest
        }
    }
}

/// The addresses to which a scan goes: the additional addresses, then the
/// multicast group, the global broadcast address and the interface
/// broadcast addresses, each when enabled.
pub open spec fn spec_scan_addresses(
    options: &DiscoOptions,
    ifaces: Seq<InterfaceInfo>,
) -> Seq<IpAddress> {
    options.additional_addresses@ + (if options.enable_multicast {
        seq![spec_multicast()]
    } else {
        Seq::empty()
    }) + (if options.global_broadcast {
        seq![spec_broadcast()]
    } else {
        Seq::empty()
    }) + (if options.broadcast_all_interfaces {
        interface_broadcasts(ifaces)
    } else {
        Seq::empty()
    })
}

/// An element of two sequences put together is an element of one of them.
proof fn lemma_concat_contains(a: Seq<IpAddress>, b: Seq<IpAddress>, x: IpAddress)
    ensures
        (a + b).contains(x) <==> (a.contains(x) || b.contains(x)),
{
    let c = a + b;
    if c.contains(x) {
        let k = choose|k: int| 0 <= k < c.len() && c[k] == x;
        if k < a.len() {
            assert(a[k] == x);
        } else {
            assert(b[k - a.len()] == x);
        }
    }
    if a.contains(x) {
        let k = choose|k: int| 0 <= k < a.len() && a[k] == x;
        assert(c[k] == x);
    }
    if b.contains(x) {
        let k = choose|k: int| 0 <= k < b.len() && b[k] == x;
        assert(c[a.len() + k] == x);
    }
}

/// The interface broadcast addresses are those of the interfaces that are
/// not loopback and have one.
proof fn lemma_interface_broadcasts_members(ifaces: Seq<InterfaceInfo>, x: IpAddress)
    ensures
        interface_broadcasts(ifaces).contains(x) <==> exists|i: int|
            0 <= i < ifaces.len() && !ifaces[i].is_loopback && ifaces[i].broadcast == Some(x),
    decreases ifaces.len(),
{
    if ifaces.len() > 0 {
        let d = ifaces.drop_last();
        let l = ifaces.last();
        let rest = interface_broadcasts(d);
        let r = interface_broadcasts(ifaces);
        lemma_interface_broadcasts_members(d, x);
        let takes = !l.is_loopback && l.broadcast is Some;
        if takes {
            assert(r == rest.push(l.broadcast->0));
            lemma_concat_contains(rest, seq![l.broadcast->0], x);
            assert(rest.push(l.broadcast->0) == rest + seq![l.broadcast->0]);
        } else {
            assert(r == rest);
        }
        if r.contains(x) {
            if takes && x == l.broadcast->0 {
                assert(!ifaces[ifaces.len() - 1].is_loopback && ifaces[ifaces.len() - 1].broadcast == Some(x));
            } else {
                if takes {
                    assert(seq![l.broadcast->0][0] != x);
                    assert(!seq![l.broadcast->0].contains(x));
                }
                assert(rest.contains(x));
                let i = choose|i: int| 0 <= i < d.len() && !d[i].is_loopback && d[i].broadcast == Some(x);
                assert(ifaces[i] == d[i]);
            }
        }
        if exists|i: int| 0 <= i < ifaces.len() && !ifaces[i].is_loopback && ifaces[i].broadcast == Some(x) {
            let i = choose|i: int| 0 <= i < ifaces.len() && !ifaces[i].is_loopback && ifaces[i].broadcast == Some(x);
            if i == ifaces.len() - 1 {
                assert(seq![l.broadcast->0][0] == x);
                assert(r.contains(x));
            } else {
                assert(d[i] == ifaces[i]);
                assert(rest.contains(x));
            }
        }
    }
}

/// A scan goes to exactly these addresses: the additional ones, which come
/// first and in order; the multicast group 239.255.255.250 when multicast is
/// enabled; the global broadcast address 255.255.255.255 when global
/// broadcast is enabled; and, when broadcasting on all interfaces, the
/// broadcast address of every interface that is not loopback and has one.
pub proof fn lemma_scan_addresses_members(options: DiscoOptions, ifaces: Seq<InterfaceInfo>, x: IpAddress)
    ensures
        spec_scan_addresses(&options, ifaces).contains(x) <==> (options.additional_addresses@.contains(x)
            || (options.enable_multicast && x == IpAddress::V4(0xEFFF_FFFA))
            || (options.global_broadcast && x == IpAddress::V4(0xFFFF_FFFF))
            || (options.broadcast_all_interfaces && exists|i: int|
                0 <= i < ifaces.len() && !ifaces[i].is_loopback && ifaces[i].broadcast == Some(x))),
        spec_scan_addresses(&options, ifaces).take(options.additional_addresses@.len() as int)
            == options.additional_addresses@,
{
    let a = options.additional_addresses@;
    let m = if options.enable_multicast { seq![IpAddress::V4(0xEFFF_FFFA)] } else { Seq::<IpAddress>::empty() };
    let g = if options.global_broadcast { seq![IpAddress::V4(0xFFFF_FFFF)] } else { Seq::<IpAddress>::empty() };
    let f = if options.broadcast_all_interfaces { interface_broadcasts(ifaces) } else { Seq::<IpAddress>::empty() };
    assert(spec_scan_addresses(&options, ifaces) == a + m + g + f);
    lemma_concat_contains(a + m + g, f, x);
    lemma_concat_contains(a + m, g, x);
    lemma_concat_contains(a, m, x);
    lemma_interface_broadcasts_members(ifaces, x);
    if options.enable_multicast {
        assert(m.contains(x) <==> x == IpAddress::V4(0xEFFF_FFFA)) by {
            if m.contains(x) {
                let k = choose|k: int| 0 <= k < m.len() && m[k] == x;
            }
            if x == IpAddress::V4(0xEFFF_FFFA) {
                assert(m[0] == x);
            }
        }
    }
    if options.global_broadcast {
        assert(g.contains(x) <==> x == IpAddress::V4(0xFFFF_FFFF)) by {
            if g.contains(x) {
                let k = choose|k: int| 0 <= k < g.len() && g[k] == x;
            }
            if x == IpAddress::V4(0xFFFF_FFFF) {
                assert(g[0] == x);
            }
        }
    }
    assert((a + m + g + f).take(a.len() as int) =~= a);
}

/// The addresses to which a discovery scan is sent, given the interfaces of
/// this host.
pub fn scan_addresses(options: &DiscoOptions, ifaces: &Vec<InterfaceInfo>) -> (r: Vec<IpAddress>)
    ensures
        r@ == spec_scan_addresses(options, ifaces@),
{
    let mut addresses: Vec<IpAddress> = Vec::new();
    let mut i: usize = 0;
    while i < options.additional_addresses.len()
        invariant
            i <= options.additional_addresses.len(),
            addresses@ == options.additional_addresses@.take(i as int),
        decreases options.additional_addresses.len() - i,
    {
        addresses.push(options.additional_addresses[i]);
        i = i + 1;
        assert(addresses@ =~= options.additional_addresses@.take(i as int));
    }
    assert(options.additional_addresses@.take(i as int) =~= options.additional_addresses@);
    let ghost a0 = addresses@;
    if options.enable_multicast {
        addresses.push(multicast_address());
    }
    let ghost a1 = addresses@;
    assert(a1 =~= a0 + (if options.enable_multicast { seq![spec_multicast()] } else { Seq::empty() }));
    if options.global_broadcast {
        addresses.push(broadcast_address());
    }
    let ghost a2 = addresses@;
    assert(a2 =~= a1 + (if options.global_broadcast { seq![spec_broadcast()] } else { Seq::empty() }));
    if options.broadcast_all_interfaces {
        let mut k: usize = 0;
        while k < ifaces.len()
            invariant
                k <= ifaces.len(),
                addresses@ == a2 + interface_broadcasts(ifaces@.take(k as int)),
            decreases ifaces.len() - k,
        {
            assert(ifaces@.take(k + 1).drop_last() =~= ifaces@.take(k as int));
            let iface = ifaces[k];
            if !iface.is_loopback {
                if let Some(addr) = iface.broadcast {
                    addresses.push(addr);
                }
            }
            k = k + 1;
            assert(addresses@ =~= a2 + interface_broadcasts(ifaces@.take(k as int)));
        }
        assert(ifaces@.take(k as int) =~= ifaces@);
    } else {
        assert(addresses@ =~= a2 + Seq::<IpAddress>::empty());
    }
    addresses
}

/// The first interval between discovery scans, in milliseconds.
pub const FIRST_RETRY_INTERVAL_MS: u64 = 2000;
/// The longest interval between discovery scans, in milliseconds.
pub const MAX_RETRY_INTERVAL_MS: u64 = 60000;

/// The interval after the given one: twice as long, up to a minute.
pub open spec fn spec_next_retry(interval_ms: u64) -> int {
    if 2 * interval_ms <= MAX_RETRY_INTERVAL_MS {
        2 * interval_ms
    } else {
        MAX_RETRY_INTERVAL_MS as int
    }
}

/// The interval after the given one: twice as long, up to a minute.
pub fn next_retry_interval(interval_ms: u64) -> (r: u64)
    ensures
        r == spec_next_retry(interval_ms),
{
    if interval_ms <= MAX_RETRY_INTERVAL_MS / 2 {
        interval_ms * 2
    } else {
        MAX_RETRY_INTERVAL_MS
    }
}

/// The retry interval never exceeds a minute, and never shrinks while below
/// it.
pub proof fn lemma_retry_interval_bounded(interval_ms: u64)
    ensures
        spec_next_retry(interval_ms) <= MAX_RETRY_INTERVAL_MS,
        interval_ms <= MAX_RETRY_INTERVAL_MS ==> interval_ms <= spec_next_retry(interval_ms),
{
}

/// A device that answered a scan.
#[derive(Clone, Debug, PartialEq, Eq)]
pub struct LanDevice {
    pub ip: IpAddress,
    pub device: String,
    pub sku: String,
    pub ble_version_hard: String,
    pub ble_version_soft: String,
    pub wifi_version_hard: String,
    pub wifi_version_soft: String,
}

/// The address to record for a device that answered a scan from `source`:
/// some devices leave out their address, which then reads as unspecified,
/// and the sender's address is used.
pub fn scan_response_ip(reported: IpAddress, source: IpAddress) -> (r: IpAddress)
    ensures
        r == if reported.is_unspecified_spec() { source } else { reported },
{
    if reported.is_unspecified() {
        source
    } else {
        reported
    }
}

impl IpAddress {
    /// The address is the unspecified address of its family.
    pub open spec fn is_unspecified_spec(self) -> bool {
        match self {
            IpAddress::V4(v) => v == 0,
            IpAddress::V6(v) => v == 0,
        }
    }
}

/// An RGB colour.
#[derive(Clone, Copy, Debug, Default, PartialEq, Eq, Structural)]
pub struct DeviceColor {
    pub r: u8,
    pub g: u8,
    pub b: u8,
}

/// The state a device reports.
#[derive(Clone, Copy, Debug, Default, PartialEq, Eq, Structural)]
pub struct DeviceStatus {
    pub on: bool,
    pub brightness: u8,
    pub color: DeviceColor,
    pub color_temperature_kelvin: u32,
}

/// The account topic of a scan request.
#[derive(Clone, Copy, Debug, PartialEq, Eq, Structural)]
pub enum AccountTopic {
    Reserve,
}

/// A request to a device.
#[derive(Clone, Debug)]
pub enum Request {
    Scan { account_topic: AccountTopic },
    DevStatus,
    Turn { value: u8 },
    Brightness { value: u8 },
    Color { color: DeviceColor, color_temperature_kelvin: u32 },
    PtReal { command: Vec<String> },
}

/// The request that turns a device on or off.
pub fn turn_request(on: bool) -> (r: Request)
    ensures
        (r matches Request::Turn { value } && value == (if on { 1u8 } else { 0u8 })),
{
    Request::Turn { value: if on { 1 } else { 0 } }
}

/// The request that sets a colour.
pub fn color_rgb_request(color: DeviceColor) -> (r: Request)
    ensures
        (r matches Request::Color { color: c, color_temperature_kelvin: k } && c == color && k == 0),
{
    Request::Color { color, color_temperature_kelvin: 0 }
}

/// The request that sets a colour temperature.
pub fn color_temperature_request(kelvin: u32) -> (r: Request)
    ensures
        (r matches Request::Color { color: c, color_temperature_kelvin: k } && c == (DeviceColor { r: 0, g: 0, b: 0 }) && k == kelvin),
{
    Request::Color { color: DeviceColor { r: 0, g: 0, b: 0 }, color_temperature_kelvin: kelvin }
}

/// The parts of `s` between commas.
pub open spec fn spec_split_commas(s: Seq<char>) -> Seq<Seq<char>>
    decreases s.len(),
{
    if s.len() == 0 {
        seq![s]
    } else {
        let init = spec_split_commas(s.drop_last());
        if s.last() == ',' {
            init.push(Seq::empty())
        } else {
            init.update(init.len() - 1, init.last().push(s.last()))
        }
    }
}

/// Splitting always gives at least one part.
proof fn lemma_split_nonempty(s: Seq<char>)
    ensures
        spec_split_commas(s).len() >= 1,
    decreases s.len(),
{
    if s.len() > 0 {
        lemma_split_nonempty(s.drop_last());
    }
}

/// The parts of `s` between commas, each trimmed of whitespace.
pub fn split_commas_trimmed(s: &str) -> (r: Vec<String>)
    ensures
        r@.len() == spec_split_commas(s@).len(),
        forall|i: int| 0 <= i < r@.len() ==> (#[trigger] r@[i])@ == spec_trim(spec_split_commas(s@)[i]),
{
    let v = chars_of(s);
    let mut parts: Vec<Vec<char>> = Vec::new();
    parts.push(Vec::new());
    let mut i: usize = 0;
    assert(v@.take(0) =~= Seq::<char>::empty());
    while i < v.len()
        invariant
            i <= v.len(),
            v@ == s@,
            parts@.len() == spec_split_commas(v@.take(i as int)).len(),
            parts@.len() >= 1,
            forall|j: int| 0 <= j < parts@.len() ==> (#[trigger] parts@[j])@ == spec_split_commas(v@.take(i as int))[j],
        decreases v.len() - i,
    {
        assert(v@.take(i + 1).drop_last() =~= v@.take(i as int));
        let ghost prev = spec_split_commas(v@.take(i as int));
        if v[i] == ',' {
            parts.push(Vec::new());
        } else {
            let last = parts.len() - 1;
            let mut cur = parts.remove(last);
            cur.push(v[i]);
            parts.push(cur);
        }
        i = i + 1;
        proof {
            let now = spec_split_commas(v@.take(i as int));
            assert forall|j: int| 0 <= j < parts@.len() implies (#[trigger] parts@[j])@ == now[j] by {}
        }
    }
    assert(v@.take(v.len() as int) =~= v@);
    let mut r: Vec<String> = Vec::new();
    let mut k: usize = 0;
    while k < parts.len()
        invariant
            k <= parts.len(),
            v@ == s@,
            parts@.len() == spec_split_commas(s@).len(),
            forall|j: int| 0 <= j < parts@.len() ==> (#[trigger] parts@[j])@ == spec_split_commas(s@)[j],
            r@.len() == k,
            forall|j: int| 0 <= j < k ==> (#[trigger] r@[j])@ == spec_trim(spec_split_commas(s@)[j]),
        decreases parts.len() - k,
    {
        let t = trim_chars(&parts[k]);
        r.push(string_of(&t));
        k = k + 1;
    }
    r
}

/// Discovery settings read from the environment: each is the raw value of
/// its variable, when set.
pub struct LanDiscoEnv {
    /// GOVEE_LAN_NO_MULTICAST
    pub no_multicast: Option<String>,
    /// GOVEE_LAN_BROADCAST_ALL
    pub broadcast_all: Option<String>,
    /// GOVEE_LAN_BROADCAST_GLOBAL
    pub broadcast_global: Option<String>,
    /// GOVEE_LAN_SCAN
    pub scan: Option<String>,
}

/// Discovery arguments from the command line.
pub struct LanDiscoArguments {
    /// Prevent the use of the default multicast broadcast address.
    pub no_multicast: bool,
    /// Enumerate all interfaces, and for each one that has
    /// a broadcast address, broadcast to it
    pub broadcast_all: bool,
    /// Broadcast to the global broadcast address 255.255.255.255
    pub global_broadcast: bool,
    /// Addresses to scan. May be broadcast addresses or individual
    /// IP addresses.
    pub scan: Vec<String>,
    /// How long to wait for discovery to complete, in seconds
    pub disco_timeout: u64,
}

/// The discovery flags and the names to scan, before the names are
/// resolved to addresses.
pub struct DiscoSettings {
    pub enable_multicast: bool,
    pub broadcast_all_interfaces: bool,
    pub global_broadcast: bool,
    pub scan_names: Vec<String>,
}

/// An environment setting that is not a boolean.
pub enum DiscoSettingsError {
    NoMulticast(InvalidBoolean),
    BroadcastAll(InvalidBoolean),
    BroadcastGlobal(InvalidBoolean),
}

/// The value of a boolean setting: the environment's when set, the
/// argument's otherwise.
pub open spec fn env_flag_ok(env: Option<String>, arg: bool, value: bool) -> bool {
    match env {
        Some(v) => (spec_is_true_text(v@) && value) || (!spec_is_true_text(v@) && spec_is_false_text(v@) && !value),
        None => value == arg,
    }
}

/// A boolean setting cannot be read.
pub open spec fn env_flag_invalid(env: Option<String>) -> bool {
    env matches Some(v) && !spec_is_true_text(v@) && !spec_is_false_text(v@)
}

impl LanDiscoArguments {
    /// The discovery settings from the arguments, overridden by the
    /// environment; the scan names are the arguments' followed by the
    /// comma-separated, trimmed names of GOVEE_LAN_SCAN.
    pub fn to_disco_settings(&self, env: &LanDiscoEnv) -> (r: Result<DiscoSettings, DiscoSettingsError>)
        ensures
            env_flag_invalid(env.no_multicast) ==> r matches Err(DiscoSettingsError::NoMulticast(_)),
            !env_flag_invalid(env.no_multicast) && env_flag_invalid(env.broadcast_all) ==> r matches Err(DiscoSettingsError::BroadcastAll(_)),
            !env_flag_invalid(env.no_multicast) && !env_flag_invalid(env.broadcast_all) && env_flag_invalid(env.broadcast_global)
                ==> r matches Err(DiscoSettingsError::BroadcastGlobal(_)),
            !env_flag_invalid(env.no_multicast) && !env_flag_invalid(env.broadcast_all) && !env_flag_invalid(env.broadcast_global)
                ==> r is Ok,
            r matches Ok(s) ==> {
                &&& env_flag_ok(env.no_multicast, self.no_multicast, !s.enable_multicast)
                &&& env_flag_ok(env.broadcast_all, self.broadcast_all, s.broadcast_all_interfaces)
                &&& env_flag_ok(env.broadcast_global, self.global_broadcast, s.global_broadcast)
                &&& s.scan_names@.len() == self.scan@.len() + match env.scan {
                    Some(v) => spec_split_commas(v@).len(),
                    None => 0,
                }
                &&& forall|i: int| 0 <= i < self.scan@.len() ==> (#[trigger] s.scan_names@[i])@ == self.scan@[i]@
                &&& env.scan matches Some(v) ==> forall|i: int| 0 <= i < spec_split_commas(v@).len()
                    ==> (#[trigger] s.scan_names@[self.scan@.len() + i])@ == spec_trim(spec_split_commas(v@)[i])
            },
    {
        let mut enable_multicast = !self.no_multicast;
        let mut broadcast_all_interfaces = self.broadcast_all;
        let mut global_broadcast = self.global_broadcast;
        if let Some(v) = &env.no_multicast {
            match truthy(v.as_str()) {
                Ok(b) => enable_multicast = !b,
                Err(e) => return Err(DiscoSettingsError::NoMulticast(e)),
            }
        }
        if let Some(v) = &env.broadcast_all {
            match truthy(v.as_str()) {
                Ok(b) => broadcast_all_interfaces = b,
                Err(e) => return Err(DiscoSettingsError::BroadcastAll(e)),
            }
        }
        if let Some(v) = &env.broadcast_global {
            match truthy(v.as_str()) {
                Ok(b) => global_broadcast = b,
                Err(e) => return Err(DiscoSettingsError::BroadcastGlobal(e)),
            }
        }
        let mut scan_names: Vec<String> = Vec::new();
        let mut i: usize = 0;
        while i < self.scan.len()
            invariant
                i <= self.scan.len(),
                scan_names@.len() == i,
                forall|j: int| 0 <= j < i ==> (#[trigger] scan_names@[j])@ == self.scan@[j]@,
            decreases self.scan.len() - i,
        {
            scan_names.push(owned(self.scan[i].as_str()));
            i = i + 1;
        }
        if let Some(v) = &env.scan {
            let parts = split_commas_trimmed(v.as_str());
            let mut k: usize = 0;
            while k < parts.len()
                invariant
                    k <= parts.len(),
                    scan_names@.len() == self.scan@.len() + k,
                    forall|j: int| 0 <= j < self.scan@.len() ==> (#[trigger] scan_names@[j])@ == self.scan@[j]@,
                    forall|j: int| 0 <= j < k ==> (#[trigger] scan_names@[self.scan@.len() + j])@ == parts@[j]@,
                decreases parts.len() - k,
            {
                scan_names.push(owned(parts[k].as_str()));
                k = k + 1;
            }
        }
        Ok(DiscoSettings { enable_multicast, broadcast_all_interfaces, global_broadcast, scan_names })
    }

    /// How long to wait for discovery, in seconds: GOVEE_LAN_DISCO_TIMEOUT
    /// read as a number when it is set (an error when it is not a number or
    /// not Unicode), the argument otherwise.
    pub fn disco_timeout(&self, env: &EnvVar) -> (r: Result<u64, SettingError>)
        ensures
            match *env {
                EnvVar::Missing => r matches Ok(v) && v == self.disco_timeout,
                EnvVar::Text(t) => match spec_parse_unsigned(t@, u64::MAX as nat) {
                    Ok(n) => r matches Ok(v) && v == n,
                    Err(k) => r matches Err(SettingError::Invalid { name, reason })
                        && name@ == "GOVEE_LAN_DISCO_TIMEOUT"@ && reason@ == spec_int_error_message(k),
                },
                EnvVar::NotUnicode => r matches Err(SettingError::NotUnicode { name })
                    && name@ == "GOVEE_LAN_DISCO_TIMEOUT"@,
            },
    {
        match env {
            EnvVar::Missing => Ok(self.disco_timeout),
            EnvVar::Text(t) => match parse_unsigned(t.as_str(), u64::MAX) {
                Ok(n) => Ok(n),
                Err(k) => Err(SettingError::Invalid {
                    name: owned("GOVEE_LAN_DISCO_TIMEOUT"),
                    reason: owned(k.message()),
                }),
            },
            EnvVar::NotUnicode => Err(SettingError::NotUnicode { name: owned("GOVEE_LAN_DISCO_TIMEOUT") }),
        }
    }
}

} // verus!
