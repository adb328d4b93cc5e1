//! USB bridge detection for serial endpoints (the older record without a
//! transport field). The decisions are those of [`crate::device`].
use crate::device::{self, auto_pick, first_named_from, kind_known, kind_of_ids, port_line, TransportKind};
use crate::error::Error;
use vstd::prelude::*;

verus! {

/// Known USB bridge kinds.
pub type UsbDevice = crate::device::DeviceKind;

/// Detected serial port information.
#[derive(Debug, Clone)]
pub struct DetectedPort {
    /// Port name/path (e.g., "/dev/ttyUSB0" or "COM3").
    pub name: String,
    /// USB device type if detected.
    pub device: UsbDevice,
    /// USB Vendor ID (if available).
    pub vid: Option<u16>,
    /// USB Product ID (if available).
    pub pid: Option<u16>,
    /// Device manufacturer string (if available).
    pub manufacturer: Option<String>,
    /// Device product string (if available).
    pub product: Option<String>,
    /// Serial number (if available).
    pub serial: Option<String>,
}

/// The endpoint record of [`crate::device`] that a port stands for (a
/// serial transport).
pub open spec fn as_device(p: DetectedPort) -> device::DetectedPort {
    device::DetectedPort {
        name: p.name,
        transport: TransportKind::Serial,
        device: p.device,
        vid: p.vid,
        pid: p.pid,
        manufacturer: p.manufacturer,
        product: p.product,
        serial: p.serial,
    }
}

/// The ports as endpoint records of [`crate::device`].
pub open spec fn as_devices(ports: Seq<DetectedPort>) -> Seq<device::DetectedPort> {
    ports.map_values(|p: DetectedPort| as_device(p))
}

impl DetectedPort {
    /// Whether this port is likely a HiSilicon development board: its device
    /// kind is known.
    pub fn is_likely_hisilicon(&self) -> (r: bool)
        ensures
            r == kind_known(self.device),
    {
        self.device.is_known()
    }

    fn to_device(&self) -> (r: device::DetectedPort)
        ensures
            r == as_device(*self),
    {
        let d = device::DetectedPort {
            name: self.name.clone(),
            transport: TransportKind::Serial,
            device: self.device,
            vid: self.vid,
            pid: self.pid,
            manufacturer: None,
            product: None,
            serial: None,
        };
        let mut d = d;
        d.manufacturer = copy_text(&self.manufacturer);
        d.product = copy_text(&self.product);
        d.serial = copy_text(&self.serial);
        d
    }

    fn from_device(d: device::DetectedPort) -> (r: DetectedPort)
        ensures
            as_device(r) == (device::DetectedPort { transport: TransportKind::Serial, ..d }),
    {
        DetectedPort {
            name: d.name,
            device: d.device,
            vid: d.vid,
            pid: d.pid,
            manufacturer: d.manufacturer,
            product: d.product,
            serial: d.serial,
        }
    }
}

fn copy_text(s: &Option<String>) -> (r: Option<String>)
    ensures
        r == *s,
{
    match s {
        Some(t) => Some(t.clone()),
        None => None,
    }
}

fn to_devices(ports: &[DetectedPort]) -> (r: Vec<device::DetectedPort>)
    ensures
        r@ == as_devices(ports@),
{
    let mut r: Vec<device::DetectedPort> = Vec::new();
    let mut i: usize = 0;
    while i < ports.len()
        invariant
            i <= ports@.len(),
            r@ == as_devices(ports@.subrange(0, i as int)),
        decreases ports@.len() - i,
    {
        r.push(ports[i].to_device());
        i = i + 1;
        assert(r@ =~= as_devices(ports@.subrange(0, i as int)));
    }
    assert(ports@.subrange(0, ports@.len() as int) =~= ports@);
    r
}

proof fn lemma_as_device_injective(p: DetectedPort, q: DetectedPort)
    requires
        as_device(p) == as_device(q),
    ensures
        p == q,
{
}

/// The ports whose device kind is known, in order.
pub fn detect_hisilicon_ports(ports: &[DetectedPort]) -> (r: Vec<DetectedPort>)
    ensures
        r@ == ports@.filter(|p: DetectedPort| kind_known(p.device)),
{
    let ghost pred = |p: DetectedPort| kind_known(p.device);
    let mut r: Vec<DetectedPort> = Vec::new();
    let mut i: usize = 0;
    while i < ports.len()
        invariant
            i <= ports@.len(),
            pred == (|p: DetectedPort| kind_known(p.device)),
            r@ == ports@.subrange(0, i as int).filter(pred),
        decreases ports@.len() - i,
    {
        proof {
            reveal_with_fuel(Seq::<_>::filter, 1);
            assert(ports@.subrange(0, i + 1).drop_last() =~= ports@.subrange(0, i as int));
        }
        if ports[i].is_likely_hisilicon() {
            let d = ports[i].to_device();
            let back = DetectedPort::from_device(d);
            proof {
                lemma_as_device_injective(back, ports@[i as int]);
            }
            r.push(back);
        }
        i = i + 1;
    }
    assert(ports@.subrange(0, ports@.len() as int) =~= ports@);
    r
}

/// The port auto-detection picks (see [`auto_pick`]), or `DeviceNotFound`.
pub fn auto_detect_port(ports: &[DetectedPort]) -> (r: Result<DetectedPort, Error>)
    ensures
        auto_pick(as_devices(ports@)) >= 0 ==> r == Ok::<DetectedPort, Error>(
            ports@[auto_pick(as_devices(ports@))],
        ),
        auto_pick(as_devices(ports@)) < 0 ==> (r matches Err(Error::DeviceNotFound)),
{
    let all = to_devices(ports);
    match device::auto_detect_port(all.as_slice()) {
        Ok(d) => {
            let back = DetectedPort::from_device(d);
            proof {
                device::lemma_auto_pick_bounds(as_devices(ports@));
                let k = auto_pick(as_devices(ports@));
                assert(as_devices(ports@)[k] == as_device(ports@[k]));
                lemma_as_device_injective(back, ports@[k]);
            }
            Ok(back)
        },
        Err(e) => Err(e),
    }
}

/// The first port whose name contains `pattern`, or `DeviceNotFound`.
pub fn find_port_by_pattern(ports: &[DetectedPort], pattern: &str) -> (r: Result<DetectedPort, Error>)
    ensures
        first_named_from(as_devices(ports@), pattern@, 0) >= 0 ==> r == Ok::<DetectedPort, Error>(
            ports@[first_named_from(as_devices(ports@), pattern@, 0)],
        ),
        first_named_from(as_devices(ports@), pattern@, 0) < 0 ==> (r matches Err(
            Error::DeviceNotFound,
        )),
{
    let all = to_devices(ports);
    match device::find_port_by_pattern(all.as_slice(), pattern) {
        Ok(d) => {
            let back = DetectedPort::from_device(d);
            proof {
                device::lemma_first_named_bounds(as_devices(ports@), pattern@, 0);
                let k = first_named_from(as_devices(ports@), pattern@, 0);
                assert(as_devices(ports@)[k] == as_device(ports@[k]));
                lemma_as_device_injective(back, ports@[k]);
            }
            Ok(back)
        },
        Err(e) => Err(e),
    }
}

/// One display line per port (see [`port_line`]).
pub fn format_port_list(ports: &[DetectedPort]) -> (r: Vec<String>)
    ensures
        r@.len() == ports@.len(),
        forall|i: int| 0 <= i < ports@.len() ==> #[trigger] r@[i]@ == port_line(as_device(ports@[i])),
{
    let all = to_devices(ports);
    device::format_port_list(all.as_slice())
}

/// The display lines of the ports that were found.
pub fn list_ports_pretty(ports: &[DetectedPort]) -> (r: Vec<String>)
    ensures
        r@.len() == ports@.len(),
        forall|i: int| 0 <= i < ports@.len() ==> #[trigger] r@[i]@ == port_line(as_device(ports@[i])),
{
    format_port_list(ports)
}


} // verus!
