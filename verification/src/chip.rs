//! Chip families and their parameters.
use crate::error::Error;
use crate::text::ascii_lower_seq;
use vstd::prelude::*;
use vstd::string::StringSliceAdditionalSpecFns;

verus! {

/// Supported chip families.
#[derive(Debug, Clone, Copy, PartialEq, Eq, Hash, Structural)]
pub enum ChipFamily {
    /// WS63 series (WiFi + BLE).
    Ws63,
    /// BS2X series (BS21, BS25, etc. - BLE only).
    Bs2x,
    /// BS25 specific.
    Bs25,
    /// WS53 series.
    Ws53,
    /// SW39 series.
    Sw39,
    /// Generic HiSilicon (unknown specific type).
    Generic,
}

impl Default for ChipFamily {
    /// WS63.
    fn default() -> (r: ChipFamily)
        ensures
            r == ChipFamily::Ws63,
    {
        ChipFamily::Ws63
    }
}

/// Whether a family is one of the BS2X line, which runs faster and has USB
/// DFU.
pub open spec fn is_bs_line(f: ChipFamily) -> bool {
    f == ChipFamily::Bs2x || f == ChipFamily::Bs25
}

/// The family a lower-case name stands for.
pub open spec fn family_of_name(lower: Seq<u8>) -> Option<ChipFamily> {
    if lower == seq![119u8, 115, 54, 51] {
        Some(ChipFamily::Ws63)
    } else if lower == seq![98u8, 115, 50, 120] || lower == seq![98u8, 115, 50, 49] {
        Some(ChipFamily::Bs2x)
    } else if lower == seq![98u8, 115, 50, 53] {
        Some(ChipFamily::Bs25)
    } else if lower == seq![119u8, 115, 53, 51] {
        Some(ChipFamily::Ws53)
    } else if lower == seq![115u8, 119, 51, 57] {
        Some(ChipFamily::Sw39)
    } else if lower == seq![103u8, 101, 110, 101, 114, 105, 99] || lower == seq![97u8, 117, 116, 111] {
        Some(ChipFamily::Generic)
    } else {
        None
    }
}

fn bytes_equal(a: &[u8], b: &[u8]) -> (r: bool)
    ensures
        r == (a@ == b@),
{
    if a.len() != b.len() {
        return false;
    }
    let mut i: usize = 0;
    while i < a.len()
        invariant
            i <= a@.len(),
            a@.len() == b@.len(),
            forall|j: int| 0 <= j < i ==> a@[j] == b@[j],
        decreases a@.len() - i,
    {
        if a[i] != b[i] {
            return false;
        }
        i = i + 1;
    }
    assert(a@ =~= b@);
    true
}

/// The ASCII lower case of the bytes of `s`.
pub fn ascii_lowercase_bytes(s: &[u8]) -> (r: Vec<u8>)
    ensures
        r@ == ascii_lower_seq(s@),
{
    let mut out: Vec<u8> = Vec::new();
    let mut i: usize = 0;
    while i < s.len()
        invariant
            i <= s@.len(),
            out@ == ascii_lower_seq(s@.subrange(0, i as int)),
        decreases s@.len() - i,
    {
        let b = s[i];
        let l = if 65 <= b && b <= 90 { b + 32 } else { b };
        out.push(l);
        i = i + 1;
        assert(out@ =~= ascii_lower_seq(s@.subrange(0, i as int)));
    }
    assert(s@.subrange(0, s@.len() as int) =~= s@);
    out
}

impl ChipFamily {
    /// Default baud rate (all families start at 115200).
    pub fn default_baud(&self) -> (r: u32)
        ensures
            r == 115200,
    {
        115200
    }

    /// High-speed baud rate: 2000000 for the BS2X line, else 921600.
    pub fn high_speed_baud(&self) -> (r: u32)
        ensures
            r == (if is_bs_line(*self) { 2_000_000u32 } else { 921_600u32 }),
    {
        match self {
            ChipFamily::Bs2x | ChipFamily::Bs25 => 2_000_000,
            _ => 921_600,
        }
    }

    /// Supported baud rates, slowest first.
    pub fn supported_bauds(&self) -> (r: Vec<u32>)
        ensures
            r@ == (if is_bs_line(*self) {
                seq![115_200u32, 230_400, 460_800, 921_600, 2_000_000]
            } else {
                seq![115_200u32, 230_400, 460_800, 921_600]
            }),
    {
        let mut v: Vec<u32> = Vec::new();
        v.push(115_200);
        v.push(230_400);
        v.push(460_800);
        v.push(921_600);
        match self {
            ChipFamily::Bs2x | ChipFamily::Bs25 => {
                v.push(2_000_000);
            },
            _ => {},
        }
        v
    }

    /// Whether the family supports USB DFU mode.
    pub fn supports_usb_dfu(&self) -> (r: bool)
        ensures
            r == is_bs_line(*self),
    {
        match self {
            ChipFamily::Bs2x | ChipFamily::Bs25 => true,
            _ => false,
        }
    }

    /// Whether the family supports eFuse operations (all do).
    pub fn supports_efuse(&self) -> (r: bool)
        ensures
            r,
    {
        true
    }

    /// Whether the family requires signed firmware.
    pub fn requires_signed_firmware(&self) -> (r: bool)
        ensures
            r == (*self == ChipFamily::Ws63 || is_bs_line(*self)),
    {
        match self {
            ChipFamily::Ws63 | ChipFamily::Bs2x | ChipFamily::Bs25 => true,
            _ => false,
        }
    }

    /// The family named `name`, compared without regard to case: "ws63",
    /// "bs2x" or "bs21", "bs25", "ws53", "sw39", "generic" or "auto".
    pub fn from_name(name: &str) -> (r: Option<ChipFamily>)
        ensures
            r == family_of_name(ascii_lower_seq(name.spec_bytes())),
    {
        let lower = ascii_lowercase_bytes(name.as_bytes());
        let l = lower.as_slice();
        let ws63: [u8; 4] = [119, 115, 54, 51];
        let bs2x: [u8; 4] = [98, 115, 50, 120];
        let bs21: [u8; 4] = [98, 115, 50, 49];
        let bs25: [u8; 4] = [98, 115, 50, 53];
        let ws53: [u8; 4] = [119, 115, 53, 51];
        let sw39: [u8; 4] = [115, 119, 51, 57];
        let generic: [u8; 7] = [103, 101, 110, 101, 114, 105, 99];
        let auto: [u8; 4] = [97, 117, 116, 111];
        assert(ws63@ =~= seq![119u8, 115, 54, 51]);
        assert(bs2x@ =~= seq![98u8, 115, 50, 120]);
        assert(bs21@ =~= seq![98u8, 115, 50, 49]);
        assert(bs25@ =~= seq![98u8, 115, 50, 53]);
        assert(ws53@ =~= seq![119u8, 115, 53, 51]);
        assert(sw39@ =~= seq![115u8, 119, 51, 57]);
        assert(generic@ =~= seq![103u8, 101, 110, 101, 114, 105, 99]);
        assert(auto@ =~= seq![97u8, 117, 116, 111]);
        if bytes_equal(l, ws63.as_slice()) {
            Some(ChipFamily::Ws63)
        } else if bytes_equal(l, bs2x.as_slice()) || bytes_equal(l, bs21.as_slice()) {
            Some(ChipFamily::Bs2x)
        } else if bytes_equal(l, bs25.as_slice()) {
            Some(ChipFamily::Bs25)
        } else if bytes_equal(l, ws53.as_slice()) {
            Some(ChipFamily::Ws53)
        } else if bytes_equal(l, sw39.as_slice()) {
            Some(ChipFamily::Sw39)
        } else if bytes_equal(l, generic.as_slice()) || bytes_equal(l, auto.as_slice()) {
            Some(ChipFamily::Generic)
        } else {
            None
        }
    }

    /// The family's display name ("WS63", "BS2X", ...).
    pub fn name(&self) -> (r: &'static str)
        ensures
            r@ == family_display(*self),
    {
        match self {
            ChipFamily::Ws63 => "WS63",
            ChipFamily::Bs2x => "BS2X",
            ChipFamily::Bs25 => "BS25",
            ChipFamily::Ws53 => "WS53",
            ChipFamily::Sw39 => "SW39",
            ChipFamily::Generic => "Generic",
        }
    }

    /// The family's display name as a `String` (what `to_string` gives).
    pub fn to_string(&self) -> (r: String)
        ensures
            r@ == family_display(*self),
    {
        String::from_str(self.name())
    }
}

/// Why no flasher can be made for a family, if none can: only WS63 has
/// one so far.
pub open spec fn flasher_refusal(f: ChipFamily) -> Option<Seq<char>> {
    match f {
        ChipFamily::Ws63 => None,
        ChipFamily::Bs2x | ChipFamily::Bs25 => Some("BS2X series support coming soon"@),
        ChipFamily::Ws53 | ChipFamily::Sw39 => Some(family_display(f) + " series support coming soon"@),
        ChipFamily::Generic => Some("Cannot create flasher for generic chip family"@),
    }
}

impl ChipFamily {
    /// Whether a flasher can be made for this family: `Ok` for WS63, else
    /// `Unsupported` with the reason (see [`flasher_refusal`]).
    pub fn flasher_available(&self) -> (r: Result<(), Error>)
        ensures
            match flasher_refusal(*self) {
                None => r is Ok,
                Some(m) => r matches Err(Error::Unsupported(s)) && s@ == m,
            },
    {
        match self {
            ChipFamily::Ws63 => Ok(()),
            ChipFamily::Bs2x | ChipFamily::Bs25 => {
                Err(Error::Unsupported(String::from_str("BS2X series support coming soon")))
            },
            ChipFamily::Ws53 | ChipFamily::Sw39 => {
                let mut m = self.to_string();
                m.append(" series support coming soon");
                Err(Error::Unsupported(m))
            },
            ChipFamily::Generic => {
                Err(Error::Unsupported(String::from_str("Cannot create flasher for generic chip family")))
            },
        }
    }
}

/// The display name of a family.
pub open spec fn family_display(f: ChipFamily) -> Seq<char> {
    match f {
        ChipFamily::Ws63 => "WS63"@,
        ChipFamily::Bs2x => "BS2X"@,
        ChipFamily::Bs25 => "BS25"@,
        ChipFamily::Ws53 => "WS53"@,
        ChipFamily::Sw39 => "SW39"@,
        ChipFamily::Generic => "Generic"@,
    }
}

/// Chip configuration parameters.
#[derive(Debug, Clone, Copy)]
pub struct ChipConfig {
    /// Chip family.
    pub family: ChipFamily,
    /// Initial baud rate for handshake.
    pub init_baud: u32,
    /// Target baud rate for data transfer.
    pub target_baud: u32,
    /// Use late baud rate switch (after loaderboot).
    pub late_baud_switch: bool,
    /// Handshake timeout in seconds.
    pub handshake_timeout_secs: u32,
    /// Data transfer timeout in seconds.
    pub transfer_timeout_secs: u32,
}

impl ChipConfig {
    /// The configuration of a family: its default and high-speed baud rates,
    /// no late switch, 30 s for the handshake and 60 s for transfers.
    pub fn new(family: ChipFamily) -> (r: ChipConfig)
        ensures
            r.family == family,
            r.init_baud == 115200,
            r.target_baud == (if is_bs_line(family) { 2_000_000u32 } else { 921_600u32 }),
            !r.late_baud_switch,
            r.handshake_timeout_secs == 30,
            r.transfer_timeout_secs == 60,
    {
        ChipConfig {
            family,
            init_baud: family.default_baud(),
            target_baud: family.high_speed_baud(),
            late_baud_switch: false,
            handshake_timeout_secs: 30,
            transfer_timeout_secs: 60,
        }
    }

    /// The same configuration with another target baud rate.
    pub fn with_baud(self, baud: u32) -> (r: ChipConfig)
        ensures
            r == (ChipConfig { target_baud: baud, ..self }),
    {
        ChipConfig { target_baud: baud, ..self }
    }

    /// The same configuration with late baud switching on or off.
    pub fn with_late_baud(self, late: bool) -> (r: ChipConfig)
        ensures
            r == (ChipConfig { late_baud_switch: late, ..self }),
    {
        ChipConfig { late_baud_switch: late, ..self }
    }

    /// The same configuration with another handshake timeout.
    pub fn with_handshake_timeout(self, secs: u32) -> (r: ChipConfig)
        ensures
            r == (ChipConfig { handshake_timeout_secs: secs, ..self }),
    {
        ChipConfig { handshake_timeout_secs: secs, ..self }
    }
}

impl Default for ChipConfig {
    /// The configuration of the default family, WS63.
    fn default() -> (r: ChipConfig)
        ensures
            r.family == ChipFamily::Ws63,
            r.init_baud == 115200,
            r.target_baud == 921_600,
            !r.late_baud_switch,
            r.handshake_timeout_secs == 30,
            r.transfer_timeout_secs == 60,
    {
        ChipConfig::new(ChipFamily::Ws63)
    }
}


/// Chip-specific operations, for a chip type that a user adds.
pub trait ChipOps {
    /// The chip family.
    fn family(&self) -> ChipFamily;

    /// The chip configuration.
    fn config(&self) -> &ChipConfig;

    /// Prepares a binary for flashing (for example, adds a signing header);
    /// by default the data unchanged.
    fn prepare_binary(&self, data: &[u8], _addr: u32) -> (r: Result<Vec<u8>, Error>)
        default_ensures
            r matches Ok(v) && v@ == data@,
    {
        let mut v: Vec<u8> = Vec::new();
        let mut i: usize = 0;
        while i < data.len()
            invariant
                i <= data@.len(),
                v@ == data@.subrange(0, i as int),
            decreases data@.len() - i,
        {
            v.push(data[i]);
            i = i + 1;
        }
        Ok(v)
    }

    /// Whether a binary for `_addr` needs signing; by default none does.
    fn needs_signing(&self, _addr: u32) -> (r: bool)
        default_ensures
            !r,
    {
        false
    }

    /// The flash base address; 0 by default.
    fn flash_base(&self) -> (r: u32)
        default_ensures
            r == 0,
    {
        0x00000000
    }

    /// The largest flash size; 8 MiB by default.
    fn flash_size(&self) -> (r: u32)
        default_ensures
            r == 0x00800000,
    {
        0x00800000
    }
}

} // verus!
