//! Port abstraction for serial communication.
//!
//! The protocol logic of this library never touches a device itself: it
//! decides what to send and interprets what arrived. A [`Port`] is what an
//! application (or a test) provides to carry the bytes.
use crate::error::{self, IoError, IoErrorKind, SerialError, SerialErrorKind};
use std::time::Duration;
use vstd::prelude::*;

verus! {

/// std's `Duration::from_millis`; nothing is claimed of the value.
pub assume_specification[ Duration::from_millis ](millis: u64) -> Duration;

/// std's `Clone` for `Duration`, a `Copy` type: the clone is the value itself.
pub assume_specification[ <Duration as Clone>::clone ](d: &Duration) -> (r: Duration)
    ensures
        r == *d,
;

/// Number of data bits.
#[derive(Debug, Clone, Copy, PartialEq, Eq, Default, Structural)]
pub enum DataBits {
    /// 5 data bits.
    Five,
    /// 6 data bits.
    Six,
    /// 7 data bits.
    Seven,
    /// 8 data bits.
    #[default]
    Eight,
}

/// Parity checking mode.
#[derive(Debug, Clone, Copy, PartialEq, Eq, Default, Structural)]
pub enum Parity {
    /// No parity.
    #[default]
    NoParity,
    /// Odd parity.
    Odd,
    /// Even parity.
    Even,
}

/// Number of stop bits.
#[derive(Debug, Clone, Copy, PartialEq, Eq, Default, Structural)]
pub enum StopBits {
    /// 1 stop bit.
    #[default]
    One,
    /// 2 stop bits.
    Two,
}

/// Flow control mode.
#[derive(Debug, Clone, Copy, PartialEq, Eq, Default, Structural)]
pub enum FlowControl {
    /// No flow control.
    #[default]
    NoFlowControl,
    /// Hardware flow control (RTS/CTS).
    Hardware,
    /// Software flow control (XON/XOFF).
    Software,
}

/// Serial port configuration.
#[derive(Debug, Clone)]
pub struct SerialConfig {
    /// Port name/path (e.g., "/dev/ttyUSB0", "COM3").
    pub port_name: String,
    /// Baud rate.
    pub baud_rate: u32,
    /// Read/write timeout.
    pub timeout: Duration,
    /// Data bits (typically 8).
    pub data_bits: DataBits,
    /// Parity (typically None).
    pub parity: Parity,
    /// Stop bits (typically One).
    pub stop_bits: StopBits,
    /// Flow control (typically None).
    pub flow_control: FlowControl,
}

impl Default for SerialConfig {
    /// No port name, 115200 baud, a one second timeout, 8N1, no flow control.
    fn default() -> (r: SerialConfig)
        ensures
            r.port_name@ == Seq::<char>::empty(),
            r.baud_rate == 115200,
            r.data_bits == DataBits::Eight,
            r.parity == Parity::NoParity,
            r.stop_bits == StopBits::One,
            r.flow_control == FlowControl::NoFlowControl,
    {
        SerialConfig {
            port_name: String::new(),
            baud_rate: 115200,
            timeout: Duration::from_millis(1000),
            data_bits: DataBits::Eight,
            parity: Parity::NoParity,
            stop_bits: StopBits::One,
            flow_control: FlowControl::NoFlowControl,
        }
    }
}

impl SerialConfig {
    /// A configuration with the given port name and baud rate, the other
    /// settings as in `default`.
    pub fn new(port_name: &str, baud_rate: u32) -> (r: SerialConfig)
        ensures
            r.port_name@ == port_name@,
            r.baud_rate == baud_rate,
            r.data_bits == DataBits::Eight,
            r.parity == Parity::NoParity,
            r.stop_bits == StopBits::One,
            r.flow_control == FlowControl::NoFlowControl,
    {
        SerialConfig {
            port_name: port_name.to_owned(),
            baud_rate,
            timeout: Duration::from_millis(1000),
            data_bits: DataBits::Eight,
            parity: Parity::NoParity,
            stop_bits: StopBits::One,
            flow_control: FlowControl::NoFlowControl,
        }
    }

    /// The same configuration with another timeout.
    pub fn with_timeout(self, timeout: Duration) -> (r: SerialConfig)
        ensures
            r == (SerialConfig { timeout, ..self }),
    {
        SerialConfig { timeout, ..self }
    }
}

/// Serial port information.
#[derive(Debug, Clone)]
pub struct PortInfo {
    /// Port name/path.
    pub name: String,
    /// USB vendor ID (if available).
    pub vid: Option<u16>,
    /// USB product ID (if available).
    pub pid: Option<u16>,
    /// Manufacturer string (if available).
    pub manufacturer: Option<String>,
    /// Product string (if available).
    pub product: Option<String>,
    /// Serial number (if available).
    pub serial_number: Option<String>,
}

/// Whether a port has the given USB vendor and product id.
pub open spec fn port_has_ids(p: PortInfo, vid: u16, pid: u16) -> bool {
    p.vid == Some(vid) && p.pid == Some(pid)
}

/// The ports with the given USB vendor and product id, in order.
pub fn filter_by_vid_pid(ports: Vec<PortInfo>, vid: u16, pid: u16) -> (r: Vec<PortInfo>)
    ensures
        r@ == ports@.filter(|p: PortInfo| port_has_ids(p, vid, pid)),
{
    let ghost pred = |p: PortInfo| port_has_ids(p, vid, pid);
    let ghost orig = ports@;
    let mut rest = ports;
    let mut r: Vec<PortInfo> = Vec::new();
    let ghost mut k: int = 0;
    while rest.len() > 0
        invariant
            0 <= k <= orig.len(),
            rest@ == orig.subrange(k, orig.len() as int),
            pred == (|p: PortInfo| port_has_ids(p, vid, pid)),
            r@ == orig.subrange(0, k).filter(pred),
        decreases rest@.len(),
    {
        proof {
            reveal_with_fuel(Seq::<_>::filter, 1);
            assert(orig.subrange(0, k + 1).drop_last() =~= orig.subrange(0, k));
        }
        let p = rest.remove(0);
        assert(p == orig[k]);
        if p.vid == Some(vid) && p.pid == Some(pid) {
            r.push(p);
        }
        proof {
            k = k + 1;
            assert(rest@ =~= orig.subrange(k, orig.len() as int));
        }
    }
    assert(orig.subrange(0, orig.len() as int) =~= orig);
    r
}

/// Unified port trait for serial communication, implemented by the
/// application for real devices and by tests for simulated ones.
pub trait Port {
    /// Sets the read/write timeout.
    fn set_timeout(&mut self, timeout: Duration) -> Result<(), error::Error>;

    /// The current timeout.
    fn timeout(&self) -> Duration;

    /// Sets the baud rate.
    fn set_baud_rate(&mut self, baud_rate: u32) -> Result<(), error::Error>;

    /// The current baud rate.
    fn baud_rate(&self) -> u32;

    /// Clears input/output buffers.
    fn clear_buffers(&mut self) -> Result<(), error::Error>;

    /// The port name/path.
    fn name(&self) -> String;

    /// Sets the DTR (Data Terminal Ready) pin.
    fn set_dtr(&mut self, level: bool) -> Result<(), error::Error>;

    /// Sets the RTS (Request To Send) pin.
    fn set_rts(&mut self, level: bool) -> Result<(), error::Error>;

    /// Reads the CTS (Clear To Send) pin.
    fn read_cts(&mut self) -> Result<bool, error::Error>;

    /// Reads the DSR (Data Set Ready) pin.
    fn read_dsr(&mut self) -> Result<bool, error::Error>;

    /// Closes the port; it cannot be used for further I/O.
    fn close(&mut self) -> Result<(), error::Error>;

    /// Reads what arrived, at most `max` bytes; an empty result when nothing
    /// arrived, `TimedOut` when the read timed out.
    fn read_bytes(&mut self, max: usize) -> Result<Vec<u8>, IoError>;

    /// Writes all bytes.
    fn write_bytes(&mut self, buf: &[u8]) -> Result<(), IoError>;

    /// Flushes written bytes to the device.
    fn flush_bytes(&mut self) -> Result<(), IoError>;

    /// Writes all bytes, then flushes; a failure of either is reported as
    /// an I/O error.
    fn write_all_bytes(&mut self, buf: &[u8]) -> (r: Result<(), error::Error>)
        default_ensures
            r matches Err(e) ==> e is Io,
    {
        match self.write_bytes(buf) {
            Ok(()) => {},
            Err(e) => return Err(error::Error::Io(e)),
        }
        match self.flush_bytes() {
            Ok(()) => Ok(()),
            Err(e) => Err(error::Error::Io(e)),
        }
    }
}

/// Listing the serial ports of the machine.
pub trait PortEnumerator {
    /// All available serial ports.
    fn list_ports() -> Result<Vec<PortInfo>, error::Error>;

    /// The available ports with the given USB vendor and product id.
    fn find_by_vid_pid(vid: u16, pid: u16) -> (r: Result<Vec<PortInfo>, error::Error>)
        ensures
            r matches Ok(v) ==> forall|i: int| 0 <= i < v@.len() ==> port_has_ids(#[trigger] v@[i], vid, pid),
    {
        match Self::list_ports() {
            Ok(ports) => {
                let ghost orig = ports@;
                let r = filter_by_vid_pid(ports, vid, pid);
                proof {
                    assert forall|i: int| 0 <= i < r@.len() implies port_has_ids(#[trigger] r@[i], vid, pid) by {
                        orig.lemma_filter_pred(|p: PortInfo| port_has_ids(p, vid, pid), i);
                    }
                }
                Ok(r)
            },
            Err(e) => Err(e),
        }
    }
}


} // verus!
