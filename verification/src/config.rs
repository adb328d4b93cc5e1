//! Configuration of the command line front end: the preferred port, the
//! known USB devices and flashing defaults.
//!
//! Files are found, read and parsed outside the library; several sources
//! are combined here with [`Config::merge`], a later source overriding an
//! earlier one.
use vstd::prelude::*;

verus! {

/// USB device identification for port matching.
#[derive(Debug, Clone, Copy, PartialEq, Eq, Structural)]
pub struct UsbDevice {
    /// USB Vendor ID.
    pub vid: u16,
    /// USB Product ID.
    pub pid: u16,
}

impl UsbDevice {
    /// Whether this device has the given vendor and product id.
    pub fn matches(&self, vid: u16, pid: u16) -> (r: bool)
        ensures
            r == (self.vid == vid && self.pid == pid),
    {
        self.vid == vid && self.pid == pid
    }
}

/// Connection configuration.
#[derive(Debug, Clone)]
pub struct ConnectionConfig {
    /// Preferred serial port (e.g., "/dev/ttyUSB0" or "COM3").
    pub serial: Option<String>,
    /// Default baud rate.
    pub baud: Option<u32>,
}

impl Default for ConnectionConfig {
    /// No port and no baud rate.
    fn default() -> (r: ConnectionConfig)
        ensures
            r.serial is None,
            r.baud is None,
    {
        ConnectionConfig { serial: None, baud: None }
    }
}

/// Port-specific configuration.
#[derive(Debug, Clone)]
pub struct PortConfig {
    /// Connection settings.
    pub connection: ConnectionConfig,
    /// Known USB devices for auto-detection.
    pub usb_device: Vec<UsbDevice>,
}

impl Default for PortConfig {
    /// No connection settings and no known devices.
    fn default() -> (r: PortConfig)
        ensures
            r.connection.serial is None,
            r.connection.baud is None,
            r.usb_device@.len() == 0,
    {
        PortConfig { connection: ConnectionConfig::default(), usb_device: Vec::new() }
    }
}

/// Flash configuration.
#[derive(Debug, Clone)]
pub struct FlashConfig {
    /// Default chip type.
    pub chip: Option<String>,
    /// Skip verification by default.
    pub skip_verify: bool,
    /// Use late baud rate change.
    pub late_baud: bool,
}

impl Default for FlashConfig {
    /// No chip, verification on, no late baud change.
    fn default() -> (r: FlashConfig)
        ensures
            r.chip is None,
            !r.skip_verify,
            !r.late_baud,
    {
        FlashConfig { chip: None, skip_verify: false, late_baud: false }
    }
}

/// Main configuration structure.
#[derive(Debug, Clone)]
pub struct Config {
    /// Port configuration.
    pub port: PortConfig,
    /// Flash configuration.
    pub flash: FlashConfig,
}

impl Default for Config {
    /// Nothing configured.
    fn default() -> (r: Config)
        ensures
            is_empty_config(r),
    {
        Config { port: PortConfig::default(), flash: FlashConfig::default() }
    }
}

/// Whether a configuration sets nothing.
pub open spec fn is_empty_config(c: Config) -> bool {
    &&& c.port.connection.serial is None
    &&& c.port.connection.baud is None
    &&& c.port.usb_device@.len() == 0
    &&& c.flash.chip is None
    &&& !c.flash.skip_verify
    &&& !c.flash.late_baud
}

/// Whether `r` is `base` with `other` merged in: what `other` sets
/// overrides, its known devices come after those of `base`, and a flag set
/// in either stays set.
pub open spec fn merged(base: Config, other: Config, r: Config) -> bool {
    &&& r.port.connection.serial == (if other.port.connection.serial is Some {
        other.port.connection.serial
    } else {
        base.port.connection.serial
    })
    &&& r.port.connection.baud == (if other.port.connection.baud is Some {
        other.port.connection.baud
    } else {
        base.port.connection.baud
    })
    &&& r.port.usb_device@ == base.port.usb_device@ + other.port.usb_device@
    &&& r.flash.chip == (if other.flash.chip is Some { other.flash.chip } else { base.flash.chip })
    &&& r.flash.skip_verify == (base.flash.skip_verify || other.flash.skip_verify)
    &&& r.flash.late_baud == (base.flash.late_baud || other.flash.late_baud)
}

/// Whether two configurations say the same.
pub open spec fn same_config(a: Config, b: Config) -> bool {
    &&& a.port.connection.serial == b.port.connection.serial
    &&& a.port.connection.baud == b.port.connection.baud
    &&& a.port.usb_device@ == b.port.usb_device@
    &&& a.flash.chip == b.flash.chip
    &&& a.flash.skip_verify == b.flash.skip_verify
    &&& a.flash.late_baud == b.flash.late_baud
}

impl Config {
    /// Merges `other` into this configuration (see [`merged`]).
    pub fn merge(&mut self, other: Config)
        ensures
            merged(*old(self), other, *final(self)),
    {
        let Config { port: PortConfig { connection: ConnectionConfig { serial, baud }, usb_device }, flash: FlashConfig { chip, skip_verify, late_baud } } = other;
        if serial.is_some() {
            self.port.connection.serial = serial;
        }
        if baud.is_some() {
            self.port.connection.baud = baud;
        }
        let mut devices = usb_device;
        self.port.usb_device.append(&mut devices);
        if chip.is_some() {
            self.flash.chip = chip;
        }
        if skip_verify {
            self.flash.skip_verify = true;
        }
        if late_baud {
            self.flash.late_baud = true;
        }
    }
}

/// Merging a configuration that sets nothing changes nothing.
pub proof fn lemma_merge_empty_is_identity(base: Config, other: Config, r: Config)
    requires
        is_empty_config(other),
        merged(base, other, r),
    ensures
        same_config(base, r),
{
    assert(base.port.usb_device@ + other.port.usb_device@ =~= base.port.usb_device@);
}

/// Merging into a configuration that sets nothing gives the merged one.
pub proof fn lemma_merge_into_empty(base: Config, other: Config, r: Config)
    requires
        is_empty_config(base),
        merged(base, other, r),
    ensures
        same_config(other, r),
{
    assert(base.port.usb_device@ + other.port.usb_device@ =~= other.port.usb_device@);
}

/// Merging is associative: merging `b` then `c` into `a` says the same as
/// merging into `a` what merging `c` into `b` gives.
pub proof fn lemma_merge_associative(a: Config, b: Config, c: Config, ab: Config, abc: Config, bc: Config, a_bc: Config)
    requires
        merged(a, b, ab),
        merged(ab, c, abc),
        merged(b, c, bc),
        merged(a, bc, a_bc),
    ensures
        same_config(abc, a_bc),
{
    assert(a.port.usb_device@ + b.port.usb_device@ + c.port.usb_device@ =~= a.port.usb_device@ + (b.port.usb_device@ + c.port.usb_device@));
}


/// The later of two optional settings: `later` where it is set.
pub open spec fn later_of<T>(earlier: Option<T>, later: Option<T>) -> Option<T> {
    if later is Some {
        later
    } else {
        earlier
    }
}

/// A layer's setting, if the layer exists.
pub open spec fn layer_serial(c: Option<Config>) -> Option<String> {
    match c {
        Some(c) => c.port.connection.serial,
        None => None,
    }
}

/// A layer's baud rate, if the layer exists.
pub open spec fn layer_baud(c: Option<Config>) -> Option<u32> {
    match c {
        Some(c) => c.port.connection.baud,
        None => None,
    }
}

/// A layer's chip, if the layer exists.
pub open spec fn layer_chip(c: Option<Config>) -> Option<String> {
    match c {
        Some(c) => c.flash.chip,
        None => None,
    }
}

/// A layer's known devices (none without the layer).
pub open spec fn layer_devices(c: Option<Config>) -> Seq<UsbDevice> {
    match c {
        Some(c) => c.port.usb_device@,
        None => Seq::empty(),
    }
}

/// A layer's flag, false without the layer.
pub open spec fn layer_flag(c: Option<Config>, late: bool) -> bool {
    match c {
        Some(c) => if late { c.flash.late_baud } else { c.flash.skip_verify },
        None => false,
    }
}

/// A ports file as a configuration layer: its port settings, no flash
/// settings.
pub open spec fn port_layer(p: Option<PortConfig>) -> Option<Config> {
    match p {
        Some(p) => Some(Config { port: p, flash: FlashConfig { chip: None, skip_verify: false, late_baud: false } }),
        None => None,
    }
}

fn ports_as_layer(p: PortConfig) -> (r: Config)
    ensures
        Some(r) == port_layer(Some(p)),
{
    Config { port: p, flash: FlashConfig { chip: None, skip_verify: false, late_baud: false } }
}

/// The configuration from its layers: the defaults, then the global file
/// and the global ports file, then the local file and the local ports file
/// over them. Each setting comes from the last layer that sets it, the
/// known devices are those of all layers in order, and a flag is on where
/// any layer sets it.
pub fn layered(
    global: Option<Config>,
    global_ports: Option<PortConfig>,
    local: Option<Config>,
    local_ports: Option<PortConfig>,
) -> (r: Config)
    ensures
        r.flash.chip == later_of(layer_chip(global), layer_chip(local)),
        r.flash.skip_verify == (layer_flag(global, false) || layer_flag(local, false)),
        r.flash.late_baud == (layer_flag(global, true) || layer_flag(local, true)),
        r.port.connection.serial == later_of(
            later_of(later_of(layer_serial(global), layer_serial(port_layer(global_ports))), layer_serial(local)),
            layer_serial(port_layer(local_ports)),
        ),
        r.port.connection.baud == later_of(
            later_of(later_of(layer_baud(global), layer_baud(port_layer(global_ports))), layer_baud(local)),
            layer_baud(port_layer(local_ports)),
        ),
        r.port.usb_device@ == layer_devices(global) + layer_devices(port_layer(global_ports)) + layer_devices(local)
            + layer_devices(port_layer(local_ports)),
{
    let mut config = Config::default();
    let ghost start = config;
    match global {
        Some(g) => config.merge(g),
        None => {},
    }
    assert(config.port.usb_device@ =~= layer_devices(global)) by {
        if global is Some {
            assert(start.port.usb_device@ + layer_devices(global) =~= layer_devices(global));
        }
    }
    match global_ports {
        Some(p) => config.merge(ports_as_layer(p)),
        None => {},
    }
    assert(config.port.usb_device@ =~= layer_devices(global) + layer_devices(port_layer(global_ports)));
    match local {
        Some(l) => config.merge(l),
        None => {},
    }
    assert(config.port.usb_device@ =~= layer_devices(global) + layer_devices(port_layer(global_ports))
        + layer_devices(local));
    match local_ports {
        Some(p) => config.merge(ports_as_layer(p)),
        None => {},
    }
    assert(config.port.usb_device@ =~= layer_devices(global) + layer_devices(port_layer(global_ports))
        + layer_devices(local) + layer_devices(port_layer(local_ports)));
    config
}

} // verus!
