//! Choosing the serial port to talk to: an explicit name, the configured
//! one, or one of the detected ports, known devices first.
//!
//! The ports are detected, and the user is asked, outside the library; the
//! decision what to do with the detected list is taken here.
use crate::cli::CliError;
use crate::config::{Config, UsbDevice};
use crate::device::{kind_known, DetectedPort, DeviceKind, TransportKind};
use crate::text::{ascii_lower_seq, text_eq, text_eq_ignore_ascii_case};
use vstd::prelude::*;
use vstd::string::StringSliceAdditionalSpecFns;

verus! {

/// Options for serial port selection.
#[derive(Debug, Clone)]
pub struct SerialOptions {
    /// Explicit port specified on the command line.
    pub port: Option<String>,
    /// List all ports (including unknown types).
    pub list_all_ports: bool,
    /// Non-interactive mode (fail if there is no single candidate).
    pub non_interactive: bool,
    /// Ask for confirmation even for a single recognized port.
    pub confirm_port: bool,
}

impl Default for SerialOptions {
    /// No port given, known ports only, interactive, no confirmation.
    fn default() -> (r: SerialOptions)
        ensures
            r.port is None,
            !r.list_all_ports,
            !r.non_interactive,
            !r.confirm_port,
    {
        SerialOptions { port: None, list_all_ports: false, non_interactive: false, confirm_port: false }
    }
}

/// The port that was chosen, and whether it is a known device.
#[derive(Debug)]
pub struct SelectedPort {
    /// The selected port.
    pub port: DetectedPort,
    /// Whether this port matched a known or configured device.
    pub is_known: bool,
}

/// Whether the configuration lists the USB ids `vid`:`pid`.
pub open spec fn configured(devices: Seq<UsbDevice>, vid: u16, pid: u16) -> bool {
    exists|i: int| 0 <= i < devices.len() && devices[i].vid == vid && devices[i].pid == pid
}

/// Whether a port is a known device: a recognized bridge, or USB ids that
/// the configuration lists.
pub open spec fn known_port(p: DetectedPort, devices: Seq<UsbDevice>) -> bool {
    ||| kind_known(p.device)
    ||| (p.vid matches Some(v) && p.pid matches Some(q) && configured(devices, v, q))
}

/// Whether `port` is a known device (built in, or listed in `config`).
pub fn is_known_device(port: &DetectedPort, config: &Config) -> (r: bool)
    ensures
        r == known_port(*port, config.port.usb_device@),
{
    if port.device.is_known() {
        return true;
    }
    match (port.vid, port.pid) {
        (Some(vid), Some(pid)) => {
            let devices = &config.port.usb_device;
            let mut i: usize = 0;
            while i < devices.len()
                invariant
                    i <= devices@.len(),
                    devices@ == config.port.usb_device@,
                    port.vid == Some(vid),
                    port.pid == Some(pid),
                    forall|j: int| 0 <= j < i ==> !(devices@[j].vid == vid && devices@[j].pid == pid),
                decreases devices@.len() - i,
            {
                if devices[i].matches(vid, pid) {
                    assert(devices@[i as int].vid == vid && devices@[i as int].pid == pid);
                    assert(configured(config.port.usb_device@, vid, pid));
                    assert(port.vid == Some(vid) && port.pid == Some(pid));
                    return true;
                }
                i = i + 1;
            }
            false
        },
        _ => false,
    }
}

/// The first port at or after `i` named exactly `name`, or the length.
pub open spec fn first_exact(ports: Seq<DetectedPort>, name: Seq<char>, i: int) -> int
    decreases ports.len() - i,
{
    if i < 0 || i >= ports.len() {
        ports.len() as int
    } else if ports[i].name@ == name {
        i
    } else {
        first_exact(ports, name, i + 1)
    }
}

/// The first port at or after `i` whose name equals `name` up to ASCII
/// case, or the length.
pub open spec fn first_folded(ports: Seq<DetectedPort>, name: Seq<u8>, i: int) -> int
    decreases ports.len() - i,
{
    if i < 0 || i >= ports.len() {
        ports.len() as int
    } else if ascii_lower_seq(utf8_bytes(ports[i].name@)) == ascii_lower_seq(name) {
        i
    } else {
        first_folded(ports, name, i + 1)
    }
}

/// The record for a port that was named but not detected.
pub open spec fn undetected_port(p: DetectedPort, name: Seq<char>) -> bool {
    &&& p.name@ == name
    &&& p.transport == TransportKind::Serial
    &&& p.device == DeviceKind::Unknown
    &&& p.vid is None
    &&& p.pid is None
    &&& p.manufacturer is None
    &&& p.product is None
    &&& p.serial is None
}

/// The UTF-8 bytes of a text.
pub open spec fn utf8_bytes(s: Seq<char>) -> Seq<u8> {
    vstd::utf8::encode_utf8(s)
}

/// Whether `r` is the port named `name` among `ports`: the first exact
/// match, else the first match up to ASCII case; a port that was not
/// detected is taken as named, as an unknown device.
pub open spec fn found_by_name(ports: Seq<DetectedPort>, name: Seq<char>, r: SelectedPort) -> bool {
    let e = first_exact(ports, name, 0);
    let f = first_folded(ports, utf8_bytes(name), 0);
    if e < ports.len() {
        r.port == ports[e] && r.is_known == kind_known(ports[e].device)
    } else if f < ports.len() {
        r.port == ports[f] && r.is_known == kind_known(ports[f].device)
    } else {
        undetected_port(r.port, name) && !r.is_known
    }
}

/// The port named `name` among the detected `ports` (see
/// [`found_by_name`]).
pub fn find_port_by_name(name: &str, ports: &[DetectedPort]) -> (r: SelectedPort)
    ensures
        found_by_name(ports@, name@, r),
{
    let mut i: usize = 0;
    while i < ports.len()
        invariant
            i <= ports@.len(),
            first_exact(ports@, name@, 0) == first_exact(ports@, name@, i as int),
        decreases ports@.len() - i,
    {
        if text_eq(ports[i].name.as_str(), name) {
            let port = ports[i].duplicate();
            let is_known = port.device.is_known();
            return SelectedPort { port, is_known };
        }
        i = i + 1;
    }
    let mut k: usize = 0;
    while k < ports.len()
        invariant
            k <= ports@.len(),
            first_exact(ports@, name@, 0) == ports@.len(),
            first_folded(ports@, name.spec_bytes(), 0) == first_folded(ports@, name.spec_bytes(), k as int),
        decreases ports@.len() - k,
    {
        if text_eq_ignore_ascii_case(ports[k].name.as_str(), name) {
            let port = ports[k].duplicate();
            let is_known = port.device.is_known();
            return SelectedPort { port, is_known };
        }
        k = k + 1;
    }
    SelectedPort {
        port: DetectedPort {
            name: name.to_owned(),
            transport: TransportKind::Serial,
            device: DeviceKind::Unknown,
            vid: None,
            pid: None,
            manufacturer: None,
            product: None,
            serial: None,
        },
        is_known: false,
    }
}

/// Chooses among the candidates without asking: exactly one is taken,
/// none or several are a usage error.
pub fn select_non_interactive_port(selection_ports: Vec<DetectedPort>, config: &Config) -> (r: Result<SelectedPort, CliError>)
    ensures
        selection_ports@.len() == 1 ==> (r matches Ok(s) && s.port == selection_ports@[0] && s.is_known == known_port(
            selection_ports@[0],
            config.port.usb_device@,
        )),
        selection_ports@.len() > 1 ==> (r matches Err(CliError::Usage(m)) && m@
            == "Multiple serial ports found; choose one with --port"@),
        selection_ports@.len() == 0 ==> (r matches Err(CliError::Usage(m)) && m@ == "No serial ports available"@),
{
    let n = selection_ports.len();
    if n == 1 {
        let mut ports = selection_ports;
        let port = ports.remove(0);
        let is_known = is_known_device(&port, config);
        Ok(SelectedPort { port, is_known })
    } else if n > 1 {
        Err(CliError::Usage(String::from_str("Multiple serial ports found; choose one with --port")))
    } else {
        Err(CliError::Usage(String::from_str("No serial ports available")))
    }
}

/// What to do about the port: it is chosen, choosing failed, the user is
/// to pick one of several (known devices first), or the user is to confirm
/// the only candidate.
#[derive(Debug)]
pub enum PortChoice {
    /// The port is chosen.
    Selected(SelectedPort),
    /// No port can be chosen.
    Failed(CliError),
    /// Ask the user to pick one of these.
    AskAmong(Vec<DetectedPort>),
    /// Ask the user to confirm this port.
    Confirm(DetectedPort),
}

/// The candidates among the detected ports: the known ones, or all of them
/// when asked to or when none is known.
pub open spec fn candidates(list_all: bool, ports: Seq<DetectedPort>, devices: Seq<UsbDevice>) -> Seq<DetectedPort> {
    let known = ports.filter(|p: DetectedPort| known_port(p, devices));
    if list_all || known.len() == 0 {
        ports
    } else {
        known
    }
}

/// The candidates in the order the user sees them: known devices first,
/// each group in detection order.
pub open spec fn known_first(ports: Seq<DetectedPort>, devices: Seq<UsbDevice>) -> Seq<DetectedPort> {
    ports.filter(|p: DetectedPort| known_port(p, devices)) + ports.filter(|p: DetectedPort| !known_port(p, devices))
}

fn split_known(ports: Vec<DetectedPort>, config: &Config) -> (r: (Vec<DetectedPort>, Vec<DetectedPort>))
    ensures
        r.0@ == ports@.filter(|p: DetectedPort| known_port(p, config.port.usb_device@)),
        r.1@ == ports@.filter(|p: DetectedPort| !known_port(p, config.port.usb_device@)),
{
    let ghost devices = config.port.usb_device@;
    let ghost kp = |p: DetectedPort| known_port(p, devices);
    let ghost up = |p: DetectedPort| !known_port(p, devices);
    let ghost orig = ports@;
    let mut rest = ports;
    let mut known: Vec<DetectedPort> = Vec::new();
    let mut unknown: Vec<DetectedPort> = Vec::new();
    let ghost mut k: int = 0;
    while rest.len() > 0
        invariant
            0 <= k <= orig.len(),
            rest@ == orig.subrange(k, orig.len() as int),
            devices == config.port.usb_device@,
            kp == (|p: DetectedPort| known_port(p, devices)),
            up == (|p: DetectedPort| !known_port(p, devices)),
            known@ == orig.subrange(0, k).filter(kp),
            unknown@ == orig.subrange(0, k).filter(up),
        decreases rest@.len(),
    {
        proof {
            reveal_with_fuel(Seq::<_>::filter, 1);
            assert(orig.subrange(0, k + 1).drop_last() =~= orig.subrange(0, k));
        }
        let p = rest.remove(0);
        assert(p == orig[k]);
        if is_known_device(&p, config) {
            known.push(p);
        } else {
            unknown.push(p);
        }
        proof {
            k = k + 1;
            assert(rest@ =~= orig.subrange(k, orig.len() as int));
        }
    }
    assert(orig.subrange(0, orig.len() as int) =~= orig);
    (known, unknown)
}

fn any_known(ports: &Vec<DetectedPort>, config: &Config) -> (r: bool)
    ensures
        r == (ports@.filter(|p: DetectedPort| known_port(p, config.port.usb_device@)).len() > 0),
{
    let ghost kp = |p: DetectedPort| known_port(p, config.port.usb_device@);
    let mut i: usize = 0;
    while i < ports.len()
        invariant
            i <= ports@.len(),
            kp == (|p: DetectedPort| known_port(p, config.port.usb_device@)),
            forall|j: int| 0 <= j < i ==> !kp(ports@[j]),
        decreases ports@.len() - i,
    {
        if is_known_device(&ports[i], config) {
            proof {
                ports@.lemma_filter_contains(kp, i as int);
            }
            return true;
        }
        i = i + 1;
    }
    proof {
        if ports@.filter(kp).len() > 0 {
            ports@.lemma_filter_pred(kp, 0);
            let e = ports@.filter(kp)[0];
            assert(ports@.filter(kp).contains(e));
            ports@.lemma_filter_contains_rev(kp, e);
            let j = choose|j: int| 0 <= j < ports@.len() && ports@[j] == e;
            assert(!kp(ports@[j]));
        }
    }
    false
}

/// What [`choose_port`] decides, given the options, the configuration and
/// the detected ports.
pub open spec fn port_choice(options: SerialOptions, config: Config, ports: Seq<DetectedPort>, r: PortChoice) -> bool {
    let devices = config.port.usb_device@;
    let cand = candidates(options.list_all_ports, ports, devices);
    if options.port is Some {
        r matches PortChoice::Selected(s) && found_by_name(ports, options.port->0@, s)
    } else if config.port.connection.serial is Some {
        r matches PortChoice::Selected(s) && found_by_name(ports, config.port.connection.serial->0@, s)
    } else if ports.len() == 0 {
        r matches PortChoice::Failed(CliError::Usage(m)) && m@ == "No serial ports found"@
    } else if options.non_interactive {
        if cand.len() == 1 {
            r matches PortChoice::Selected(s) && s.port == cand[0] && s.is_known == known_port(cand[0], devices)
        } else {
            r matches PortChoice::Failed(CliError::Usage(m)) && m@ == "Multiple serial ports found; choose one with --port"@
        }
    } else if cand.len() > 1 {
        r matches PortChoice::AskAmong(v) && v@ == known_first(cand, devices)
    } else if known_port(cand[0], devices) && !options.confirm_port {
        r matches PortChoice::Selected(s) && s.port == cand[0] && s.is_known
    } else {
        r matches PortChoice::Confirm(p) && p == cand[0]
    }
}

/// In non-interactive mode nobody is asked: the port is chosen or choosing
/// fails.
pub proof fn lemma_non_interactive_never_asks(options: SerialOptions, config: Config, ports: Seq<DetectedPort>, r: PortChoice)
    requires
        options.non_interactive,
        port_choice(options, config, ports, r),
    ensures
        r is Selected || r is Failed,
{
}

/// Decides what to do about the port, given the options, the configuration
/// and the detected ports: an explicit or configured name is looked up; no
/// detected port is a usage error; else the candidates (see
/// [`candidates`]) are chosen from without asking in non-interactive mode,
/// offered in known-first order when there are several, and a single one is
/// taken when it is known and no confirmation is asked for, else offered
/// for confirmation.
pub fn choose_port(options: &SerialOptions, config: &Config, ports: Vec<DetectedPort>) -> (r: PortChoice)
    ensures
        port_choice(*options, *config, ports@, r),
{
    match &options.port {
        Some(name) => {
            return PortChoice::Selected(find_port_by_name(name.as_str(), ports.as_slice()));
        },
        None => {},
    }
    match &config.port.connection.serial {
        Some(name) => {
            return PortChoice::Selected(find_port_by_name(name.as_str(), ports.as_slice()));
        },
        None => {},
    }
    if ports.len() == 0 {
        return PortChoice::Failed(CliError::Usage(String::from_str("No serial ports found")));
    }
    let ghost devices = config.port.usb_device@;
    let ghost all = ports@;
    let any = any_known(&ports, config);
    let selection = if options.list_all_ports || !any {
        ports
    } else {
        let (known, _unknown) = split_known(ports, config);
        known
    };
    assert(selection@ == candidates(options.list_all_ports, all, devices));
    if options.non_interactive {
        return match select_non_interactive_port(selection, config) {
            Ok(s) => PortChoice::Selected(s),
            Err(e) => PortChoice::Failed(e),
        };
    }
    if selection.len() > 1 {
        let ghost cand = selection@;
        let (k2, u2) = split_known(selection, config);
        let mut ordered = k2;
        let mut rest = u2;
        ordered.append(&mut rest);
        assert(ordered@ =~= known_first(cand, devices));
        return PortChoice::AskAmong(ordered);
    }
    let mut selection = selection;
    let port = selection.remove(0);
    let is_known = is_known_device(&port, config);
    if is_known && !options.confirm_port {
        PortChoice::Selected(SelectedPort { port, is_known })
    } else {
        PortChoice::Confirm(port)
    }
}

} // verus!
