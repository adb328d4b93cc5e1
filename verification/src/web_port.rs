//! The Web Serial port, for builds that run in a browser. Talking to the
//! Web Serial API is not implemented: the port refuses what it cannot do.
use crate::error::{Error, IoError, IoErrorKind};
use crate::port::{Port, PortEnumerator, PortInfo, SerialConfig};
use std::time::Duration;
use vstd::prelude::*;

verus! {

/// A serial port reached through the browser's Web Serial API.
pub struct WebSerialPort {
    name: String,
    baud_rate: u32,
    timeout: Duration,
}

impl WebSerialPort {
    /// The port's name.
    pub closed spec fn spec_name(&self) -> Seq<char> {
        self.name@
    }

    /// The port's baud rate.
    pub closed spec fn spec_baud_rate(&self) -> u32 {
        self.baud_rate
    }

    /// The port's timeout.
    pub closed spec fn spec_timeout(&self) -> Duration {
        self.timeout
    }

    /// Opening a Web Serial port is not implemented: always `Unsupported`.
    pub fn new(_config: &SerialConfig) -> (r: Result<WebSerialPort, Error>)
        ensures
            r matches Err(Error::Unsupported(m)) && m@ == "Web Serial API support is not yet implemented. Please use the native version of hisiflash."@,
    {
        Err(
            Error::Unsupported(
                String::from_str(
                    "Web Serial API support is not yet implemented. Please use the native version of hisiflash.",
                ),
            ),
        )
    }
}

impl Port for WebSerialPort {
    /// Keeps the timeout.
    fn set_timeout(&mut self, timeout: Duration) -> (r: Result<(), Error>)
        ensures
            r is Ok,
            final(self).spec_timeout() == timeout,
            final(self).spec_baud_rate() == old(self).spec_baud_rate(),
            final(self).spec_name() == old(self).spec_name(),
    {
        self.timeout = timeout;
        Ok(())
    }

    fn timeout(&self) -> (r: Duration)
        ensures
            r == self.spec_timeout(),
    {
        self.timeout
    }

    /// Records the baud rate, but changing it needs the port reopened:
    /// always `Unsupported`.
    fn set_baud_rate(&mut self, baud_rate: u32) -> (r: Result<(), Error>)
        ensures
            r matches Err(Error::Unsupported(m)) && m@ == "Changing baud rate on Web Serial requires reopening the port."@,
            final(self).spec_baud_rate() == baud_rate,
            final(self).spec_timeout() == old(self).spec_timeout(),
            final(self).spec_name() == old(self).spec_name(),
    {
        self.baud_rate = baud_rate;
        Err(Error::Unsupported(String::from_str("Changing baud rate on Web Serial requires reopening the port.")))
    }

    fn baud_rate(&self) -> (r: u32)
        ensures
            r == self.spec_baud_rate(),
    {
        self.baud_rate
    }

    /// Nothing to clear.
    fn clear_buffers(&mut self) -> (r: Result<(), Error>)
        ensures
            r is Ok,
            *final(self) == *old(self),
    {
        Ok(())
    }

    fn name(&self) -> (r: String)
        ensures
            r@ == self.spec_name(),
    {
        self.name.clone()
    }

    /// Not implemented: always `Unsupported`.
    fn set_dtr(&mut self, _level: bool) -> (r: Result<(), Error>)
        ensures
            r matches Err(Error::Unsupported(m)) && m@ == "DTR control not yet implemented for Web Serial."@,
            *final(self) == *old(self),
    {
        Err(Error::Unsupported(String::from_str("DTR control not yet implemented for Web Serial.")))
    }

    /// Not implemented: always `Unsupported`.
    fn set_rts(&mut self, _level: bool) -> (r: Result<(), Error>)
        ensures
            r matches Err(Error::Unsupported(m)) && m@ == "RTS control not yet implemented for Web Serial."@,
            *final(self) == *old(self),
    {
        Err(Error::Unsupported(String::from_str("RTS control not yet implemented for Web Serial.")))
    }

    /// Not implemented: always `Unsupported`.
    fn read_cts(&mut self) -> (r: Result<bool, Error>)
        ensures
            r matches Err(Error::Unsupported(m)) && m@ == "CTS reading not yet implemented for Web Serial."@,
            *final(self) == *old(self),
    {
        Err(Error::Unsupported(String::from_str("CTS reading not yet implemented for Web Serial.")))
    }

    /// Not implemented: always `Unsupported`.
    fn read_dsr(&mut self) -> (r: Result<bool, Error>)
        ensures
            r matches Err(Error::Unsupported(m)) && m@ == "DSR reading not yet implemented for Web Serial."@,
            *final(self) == *old(self),
    {
        Err(Error::Unsupported(String::from_str("DSR reading not yet implemented for Web Serial.")))
    }

    /// Nothing to close.
    fn close(&mut self) -> (r: Result<(), Error>)
        ensures
            r is Ok,
            *final(self) == *old(self),
    {
        Ok(())
    }

    /// Not implemented: always an `Unsupported` I/O error.
    fn read_bytes(&mut self, _max: usize) -> (r: Result<Vec<u8>, IoError>)
        ensures
            r matches Err(e) && e.kind == IoErrorKind::Unsupported && e.message@ == "Web Serial read not yet implemented"@,
            *final(self) == *old(self),
    {
        Err(IoError::new(IoErrorKind::Unsupported, String::from_str("Web Serial read not yet implemented")))
    }

    /// Not implemented: always an `Unsupported` I/O error.
    fn write_bytes(&mut self, _buf: &[u8]) -> (r: Result<(), IoError>)
        ensures
            r matches Err(e) && e.kind == IoErrorKind::Unsupported && e.message@ == "Web Serial write not yet implemented"@,
            *final(self) == *old(self),
    {
        Err(IoError::new(IoErrorKind::Unsupported, String::from_str("Web Serial write not yet implemented")))
    }

    /// Nothing to flush.
    fn flush_bytes(&mut self) -> (r: Result<(), IoError>)
        ensures
            r is Ok,
            *final(self) == *old(self),
    {
        Ok(())
    }
}

/// Listing Web Serial ports needs the user to pick one in the browser.
pub struct WebSerialPortEnumerator;

impl PortEnumerator for WebSerialPortEnumerator {
    /// Always `Unsupported`: the browser hands out ports only on request.
    fn list_ports() -> (r: Result<Vec<PortInfo>, Error>)
        ensures
            r matches Err(Error::Unsupported(m)) && m@ == "Web Serial cannot enumerate ports without user interaction. Use navigator.serial.requestPort() from JavaScript instead."@,
    {
        Err(
            Error::Unsupported(
                String::from_str(
                    "Web Serial cannot enumerate ports without user interaction. Use navigator.serial.requestPort() from JavaScript instead.",
                ),
            ),
        )
    }
}

} // verus!
