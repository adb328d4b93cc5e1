//! The SEBOOT boot protocol of HiSilicon chips (WS63, BS2X and others).
//!
//! Every command travels in one frame:
//!
//! ```text
//! | magic (4, LE 0xDEADBEEF) | length (2, LE) | type | ~type | data | CRC16 (2, LE) |
//! ```
//!
//! The length counts the whole frame; the CRC16-XMODEM covers every byte
//! before it.
use crate::bytes::{le16, le32, put_u16_le, put_u32_le};
use crate::crc::{crc16_spec, crc16_xmodem};
use vstd::prelude::*;

verus! {

/// Frame magic number (stored little-endian: EF BE AD DE).
pub const FRAME_MAGIC: u32 = 0xDEADBEEF;

/// Magic number of an FWPKG header.
pub const FWPKG_MAGIC: u32 = 0xEFBEADDF;

/// ACK result code for success.
pub const ACK_SUCCESS: u8 = 0x5A;

/// ACK result code for failure.
pub const ACK_FAILURE: u8 = 0x00;

/// Minimum length of an ACK frame.
pub const ACK_MIN_LEN: usize = 12;

/// A handshake ACK frame as the device sends it (CRC left as zero).
pub const HANDSHAKE_ACK: [u8; 12] = [
    0xEF, 0xBE, 0xAD, 0xDE, 0x0C, 0x00, 0xE1, 0x1E, 0x5A, 0x00, 0x00, 0x00,
];

/// SEBOOT command types (the frame type field).
#[derive(Debug, Clone, Copy, PartialEq, Eq, Structural)]
pub enum CommandType {
    /// Handshake/connection establishment (0xF0).
    Handshake,
    /// ACK frame sent by the device (0xE1).
    Ack,
    /// Download flash image (0xD2).
    DownloadFlashImage,
    /// Download OTP/eFuse (0xC3).
    DownloadOtpEfuse,
    /// Upload data from flash (0xB4).
    UploadData,
    /// Read OTP/eFuse (0xA5).
    ReadOtpEfuse,
    /// Flash lock (0x96).
    FlashLock,
    /// Reset device (0x87).
    Reset,
    /// Download factory bin (0x78).
    DownloadFactoryBin,
    /// Download version info (0x69).
    DownloadVersion,
    /// Set baud rate (0x5A).
    SetBaudRate,
    /// Download NV data (0x4B).
    DownloadNv,
    /// Switch to DFU mode (0x1E).
    SwitchDfu,
}

/// The byte that stands for a command type in a frame.
pub open spec fn command_code(t: CommandType) -> u8 {
    match t {
        CommandType::Handshake => 0xF0,
        CommandType::Ack => 0xE1,
        CommandType::DownloadFlashImage => 0xD2,
        CommandType::DownloadOtpEfuse => 0xC3,
        CommandType::UploadData => 0xB4,
        CommandType::ReadOtpEfuse => 0xA5,
        CommandType::FlashLock => 0x96,
        CommandType::Reset => 0x87,
        CommandType::DownloadFactoryBin => 0x78,
        CommandType::DownloadVersion => 0x69,
        CommandType::SetBaudRate => 0x5A,
        CommandType::DownloadNv => 0x4B,
        CommandType::SwitchDfu => 0x1E,
    }
}

/// The two nibbles of a byte exchanged.
pub open spec fn nibble_swap(b: u8) -> u8 {
    ((b >> 4u8) | (b << 4u8)) as u8
}

/// Exchanges the two nibbles of a byte.
pub fn swap_nibbles(b: u8) -> (r: u8)
    ensures
        r == nibble_swap(b),
{
    (b >> 4u8) | (b << 4u8)
}

impl CommandType {
    /// The frame type byte of this command.
    pub fn code(self) -> (r: u8)
        ensures
            r == command_code(self),
    {
        match self {
            CommandType::Handshake => 0xF0,
            CommandType::Ack => 0xE1,
            CommandType::DownloadFlashImage => 0xD2,
            CommandType::DownloadOtpEfuse => 0xC3,
            CommandType::UploadData => 0xB4,
            CommandType::ReadOtpEfuse => 0xA5,
            CommandType::FlashLock => 0x96,
            CommandType::Reset => 0x87,
            CommandType::DownloadFactoryBin => 0x78,
            CommandType::DownloadVersion => 0x69,
            CommandType::SetBaudRate => 0x5A,
            CommandType::DownloadNv => 0x4B,
            CommandType::SwitchDfu => 0x1E,
        }
    }

    /// The complement of the frame type byte (`~cmd`).
    pub fn reversed(self) -> (r: u8)
        ensures
            r == !command_code(self),
    {
        !self.code()
    }

    /// The frame type byte with its two nibbles exchanged.
    pub fn swapped(self) -> (r: u8)
        ensures
            r == nibble_swap(command_code(self)),
    {
        swap_nibbles(self.code())
    }
}

/// Image/partition types supported by HiSilicon chips.
#[derive(Debug, Clone, Copy, PartialEq, Eq, Structural)]
pub enum ImageType {
    /// Boot loader (first stage).
    Loader,
    /// Normal firmware partition.
    Normal,
    /// Key-Value NV storage.
    KvNv,
    /// eFuse data.
    Efuse,
    /// OTP data.
    Otp,
    /// Flash boot (second stage loader).
    FlashBoot,
    /// Factory calibration data.
    Factory,
    /// Version information.
    Version,
    /// Security partition A.
    SecurityA,
    /// Security partition B.
    SecurityB,
    /// Security partition C.
    SecurityC,
    /// Protocol partition A.
    ProtocolA,
    /// Application partition A.
    AppsA,
    /// Radio configuration.
    RadioConfig,
    /// ROM image.
    Rom,
    /// eMMC image.
    Emmc,
    /// Database.
    Database,
    /// FlashBoot 3892.
    FlashBoot3892,
}

/// The number of an image type.
pub open spec fn image_type_number(t: ImageType) -> u32 {
    match t {
        ImageType::Loader => 0,
        ImageType::Normal => 1,
        ImageType::KvNv => 2,
        ImageType::Efuse => 3,
        ImageType::Otp => 4,
        ImageType::FlashBoot => 5,
        ImageType::Factory => 6,
        ImageType::Version => 7,
        ImageType::SecurityA => 8,
        ImageType::SecurityB => 9,
        ImageType::SecurityC => 10,
        ImageType::ProtocolA => 11,
        ImageType::AppsA => 12,
        ImageType::RadioConfig => 13,
        ImageType::Rom => 14,
        ImageType::Emmc => 15,
        ImageType::Database => 16,
        ImageType::FlashBoot3892 => 17,
    }
}

/// The image type that a number read from a device stands for: 0 and 2..=7
/// have their own type, every other number counts as `Normal`.
pub open spec fn image_type_of(v: u32) -> ImageType {
    if v == 0 {
        ImageType::Loader
    } else if v == 2 {
        ImageType::KvNv
    } else if v == 3 {
        ImageType::Efuse
    } else if v == 4 {
        ImageType::Otp
    } else if v == 5 {
        ImageType::FlashBoot
    } else if v == 6 {
        ImageType::Factory
    } else if v == 7 {
        ImageType::Version
    } else {
        ImageType::Normal
    }
}

impl ImageType {
    /// The number of this image type.
    pub fn as_u32(self) -> (r: u32)
        ensures
            r == image_type_number(self),
    {
        match self {
            ImageType::Loader => 0,
            ImageType::Normal => 1,
            ImageType::KvNv => 2,
            ImageType::Efuse => 3,
            ImageType::Otp => 4,
            ImageType::FlashBoot => 5,
            ImageType::Factory => 6,
            ImageType::Version => 7,
            ImageType::SecurityA => 8,
            ImageType::SecurityB => 9,
            ImageType::SecurityC => 10,
            ImageType::ProtocolA => 11,
            ImageType::AppsA => 12,
            ImageType::RadioConfig => 13,
            ImageType::Rom => 14,
            ImageType::Emmc => 15,
            ImageType::Database => 16,
            ImageType::FlashBoot3892 => 17,
        }
    }

    /// The image type of a number (see [`image_type_of`]).
    pub fn from_u32(v: u32) -> (r: ImageType)
        ensures
            r == image_type_of(v),
    {
        if v == 0 {
            ImageType::Loader
        } else if v == 2 {
            ImageType::KvNv
        } else if v == 3 {
            ImageType::Efuse
        } else if v == 4 {
            ImageType::Otp
        } else if v == 5 {
            ImageType::FlashBoot
        } else if v == 6 {
            ImageType::Factory
        } else if v == 7 {
            ImageType::Version
        } else {
            ImageType::Normal
        }
    }
}

impl From<u32> for ImageType {
    fn from(value: u32) -> (r: ImageType) {
        ImageType::from_u32(value)
    }
}

impl vstd::std_specs::convert::FromSpecImpl<u32> for ImageType {
    open spec fn obeys_from_spec() -> bool {
        true
    }

    open spec fn from_spec(v: u32) -> ImageType {
        image_type_of(v)
    }
}

/// The bytes of a frame with type bytes `t`, `t2` and payload `d`, before
/// its CRC.
pub open spec fn frame_head(t: u8, t2: u8, d: Seq<u8>) -> Seq<u8> {
    le32(FRAME_MAGIC) + le16((10 + d.len()) as u16) + seq![t, t2] + d
}

/// A whole frame with type bytes `t`, `t2` and payload `d`.
pub open spec fn raw_frame(t: u8, t2: u8, d: Seq<u8>) -> Seq<u8> {
    frame_head(t, t2, d) + le16(crc16_spec(frame_head(t, t2, d)))
}

/// A whole SEBOOT frame of type byte `t`: the second type byte is `!t`.
pub open spec fn frame_bytes(t: u8, d: Seq<u8>) -> Seq<u8> {
    raw_frame(t, !t, d)
}

/// Assembles a frame: magic, length, the two type bytes, payload, CRC16.
pub(crate) fn assemble_frame(t: u8, t2: u8, data: &[u8]) -> (r: Vec<u8>)
    requires
        data@.len() <= 0xFFF0,
    ensures
        r@ == raw_frame(t, t2, data@),
{
    let n = data.len();
    let total: usize = 10 + n;
    let mut buf: Vec<u8> = Vec::with_capacity(total);
    put_u32_le(&mut buf, FRAME_MAGIC);
    put_u16_le(&mut buf, total as u16);
    buf.push(t);
    buf.push(t2);
    let mut i: usize = 0;
    let ghost head0 = buf@;
    while i < n
        invariant
            n == data@.len(),
            i <= n,
            buf@ == head0 + data@.subrange(0, i as int),
        decreases n - i,
    {
        buf.push(data[i]);
        i = i + 1;
        assert(buf@ =~= head0 + data@.subrange(0, i as int));
    }
    assert(buf@ =~= frame_head(t, t2, data@));
    let crc = crc16_xmodem(buf.as_slice());
    put_u16_le(&mut buf, crc);
    buf
}

/// SEBOOT command frame builder.
#[derive(Debug)]
pub struct SebootFrame {
    frame_type: CommandType,
    data: Vec<u8>,
}

impl SebootFrame {
    #[verifier::type_invariant]
    spec fn small(self) -> bool {
        self.data@.len() <= 16
    }

    /// The command type of this frame.
    pub closed spec fn kind(self) -> CommandType {
        self.frame_type
    }

    /// The payload of this frame.
    pub closed spec fn payload(self) -> Seq<u8> {
        self.data@
    }

    /// Creates a frame of the given type with no payload.
    pub fn new(frame_type: CommandType) -> (r: Self)
        ensures
            r.kind() == frame_type,
            r.payload() == Seq::<u8>::empty(),
    {
        SebootFrame { frame_type, data: Vec::new() }
    }

    fn with_payload(frame_type: CommandType, data: Vec<u8>) -> (r: Self)
        requires
            data@.len() <= 16,
        ensures
            r.kind() == frame_type,
            r.payload() == data@,
    {
        SebootFrame { frame_type, data }
    }

    /// Handshake frame: baud rate (LE), then 8 data bits, 1 stop bit, no
    /// parity, no flow control.
    pub fn handshake(baud_rate: u32) -> (r: Self)
        ensures
            r.kind() == CommandType::Handshake,
            r.payload() == le32(baud_rate) + seq![8u8, 1u8, 0u8, 0u8],
    {
        let mut d: Vec<u8> = Vec::new();
        put_u32_le(&mut d, baud_rate);
        d.push(8);
        d.push(1);
        d.push(0);
        d.push(0);
        assert(d@ =~= le32(baud_rate) + seq![8u8, 1u8, 0u8, 0u8]);
        Self::with_payload(CommandType::Handshake, d)
    }

    /// Set-baud-rate frame: baud rate, then the constant 0x0108.
    pub fn set_baud_rate(baud_rate: u32) -> (r: Self)
        ensures
            r.kind() == CommandType::SetBaudRate,
            r.payload() == le32(baud_rate) + le32(0x0108),
    {
        let mut d: Vec<u8> = Vec::new();
        put_u32_le(&mut d, baud_rate);
        put_u32_le(&mut d, 0x0108);
        Self::with_payload(CommandType::SetBaudRate, d)
    }

    /// Download-flash-image frame: address, length, erase size, then the
    /// formal byte (1 for a ROM image) and its complement.
    pub fn download_flash_image(addr: u32, len: u32, erase_size: u32, is_rom: bool) -> (r: Self)
        ensures
            r.kind() == CommandType::DownloadFlashImage,
            r.payload() == le32(addr) + le32(len) + le32(erase_size) + seq![
                if is_rom { 1u8 } else { 0u8 },
                if is_rom { 0xFEu8 } else { 0xFFu8 },
            ],
    {
        let mut d: Vec<u8> = Vec::new();
        put_u32_le(&mut d, addr);
        put_u32_le(&mut d, len);
        put_u32_le(&mut d, erase_size);
        let formal: u8 = if is_rom { 1 } else { 0 };
        d.push(formal);
        d.push(!formal);
        assert(!1u8 == 0xFEu8 && !0u8 == 0xFFu8) by (bit_vector);
        assert(d@ =~= le32(addr) + le32(len) + le32(erase_size) + seq![
            if is_rom { 1u8 } else { 0u8 },
            if is_rom { 0xFEu8 } else { 0xFFu8 },
        ]);
        Self::with_payload(CommandType::DownloadFlashImage, d)
    }

    /// Download-factory-bin frame: address, length, erase size, 0x00, 0xFF.
    pub fn download_factory_bin(addr: u32, len: u32, erase_size: u32) -> (r: Self)
        ensures
            r.kind() == CommandType::DownloadFactoryBin,
            r.payload() == le32(addr) + le32(len) + le32(erase_size) + seq![0u8, 0xFFu8],
    {
        let mut d: Vec<u8> = Vec::new();
        put_u32_le(&mut d, addr);
        put_u32_le(&mut d, len);
        put_u32_le(&mut d, erase_size);
        d.push(0x00);
        d.push(0xFF);
        assert(d@ =~= le32(addr) + le32(len) + le32(erase_size) + seq![0u8, 0xFFu8]);
        Self::with_payload(CommandType::DownloadFactoryBin, d)
    }

    /// Download-NV frame: address, length, erase size, item count 0 (u16),
    /// then the erase-all flag (u16).
    pub fn download_nv(addr: u32, len: u32, erase_size: u32, erase_all: bool) -> (r: Self)
        ensures
            r.kind() == CommandType::DownloadNv,
            r.payload() == le32(addr) + le32(len) + le32(erase_size) + le16(0) + le16(
                if erase_all { 1u16 } else { 0u16 },
            ),
    {
        let mut d: Vec<u8> = Vec::new();
        put_u32_le(&mut d, addr);
        put_u32_le(&mut d, len);
        put_u32_le(&mut d, erase_size);
        put_u16_le(&mut d, 0);
        let flag: u16 = if erase_all { 1 } else { 0 };
        put_u16_le(&mut d, flag);
        Self::with_payload(CommandType::DownloadNv, d)
    }

    /// Download-OTP/eFuse frame: the length.
    pub fn download_otp_efuse(len: u32) -> (r: Self)
        ensures
            r.kind() == CommandType::DownloadOtpEfuse,
            r.payload() == le32(len),
    {
        let mut d: Vec<u8> = Vec::new();
        put_u32_le(&mut d, len);
        Self::with_payload(CommandType::DownloadOtpEfuse, d)
    }

    /// Download-version frame: the length.
    pub fn download_version(len: u32) -> (r: Self)
        ensures
            r.kind() == CommandType::DownloadVersion,
            r.payload() == le32(len),
    {
        let mut d: Vec<u8> = Vec::new();
        put_u32_le(&mut d, len);
        Self::with_payload(CommandType::DownloadVersion, d)
    }

    /// Upload-data frame: the length, then the address.
    pub fn upload_data(addr: u32, len: u32) -> (r: Self)
        ensures
            r.kind() == CommandType::UploadData,
            r.payload() == le32(len) + le32(addr),
    {
        let mut d: Vec<u8> = Vec::new();
        put_u32_le(&mut d, len);
        put_u32_le(&mut d, addr);
        Self::with_payload(CommandType::UploadData, d)
    }

    /// Read-OTP/eFuse frame: start bit, then bit width.
    pub fn read_otp_efuse(start_bit: u16, bit_width: u16) -> (r: Self)
        ensures
            r.kind() == CommandType::ReadOtpEfuse,
            r.payload() == le16(start_bit) + le16(bit_width),
    {
        let mut d: Vec<u8> = Vec::new();
        put_u16_le(&mut d, start_bit);
        put_u16_le(&mut d, bit_width);
        Self::with_payload(CommandType::ReadOtpEfuse, d)
    }

    /// Flash-lock frame: the parameter.
    pub fn flash_lock(param: u16) -> (r: Self)
        ensures
            r.kind() == CommandType::FlashLock,
            r.payload() == le16(param),
    {
        let mut d: Vec<u8> = Vec::new();
        put_u16_le(&mut d, param);
        Self::with_payload(CommandType::FlashLock, d)
    }

    /// Reset frame: a zero u16.
    pub fn reset() -> (r: Self)
        ensures
            r.kind() == CommandType::Reset,
            r.payload() == le16(0),
    {
        let mut d: Vec<u8> = Vec::new();
        put_u16_le(&mut d, 0);
        Self::with_payload(CommandType::Reset, d)
    }

    /// Switch-to-DFU frame: a zero u16.
    pub fn switch_dfu() -> (r: Self)
        ensures
            r.kind() == CommandType::SwitchDfu,
            r.payload() == le16(0),
    {
        let mut d: Vec<u8> = Vec::new();
        put_u16_le(&mut d, 0);
        Self::with_payload(CommandType::SwitchDfu, d)
    }

    /// Erase-all frame: a download of nothing to address 0 that erases
    /// 0xFFFFFFFF bytes.
    pub fn erase_all() -> (r: Self)
        ensures
            r.kind() == CommandType::DownloadFlashImage,
            r.payload() == le32(0) + le32(0) + le32(0xFFFF_FFFF) + seq![0u8, 0xFFu8],
    {
        Self::download_flash_image(0, 0, 0xFFFF_FFFF, false)
    }

    /// The whole frame: magic, length, type, `~type`, payload, CRC16.
    pub fn build(&self) -> (r: Vec<u8>)
        ensures
            r@ == frame_bytes(command_code(self.kind()), self.payload()),
    {
        proof {
            use_type_invariant(self);
        }
        assemble_frame(self.frame_type.code(), self.frame_type.reversed(), self.data.as_slice())
    }

    /// The command type of this frame.
    pub fn command_type(&self) -> (r: CommandType)
        ensures
            r == self.kind(),
    {
        self.frame_type
    }
}

/// Whether the magic number starts at position `i` of `s`.
pub open spec fn magic_at(s: Seq<u8>, i: int) -> bool {
    &&& 0 <= i
    &&& i + 4 <= s.len()
    &&& s[i] == 0xEF
    &&& s[i + 1] == 0xBE
    &&& s[i + 2] == 0xAD
    &&& s[i + 3] == 0xDE
}

/// The first position at or after `i` where the magic number starts, or -1.
pub open spec fn first_magic_from(s: Seq<u8>, i: int) -> int
    decreases s.len() - i,
{
    if i < 0 || i + 4 > s.len() {
        -1
    } else if magic_at(s, i) {
        i
    } else {
        first_magic_from(s, i + 1)
    }
}

/// Whether some position in `lo..hi` starts the magic number.
pub open spec fn magic_between(s: Seq<u8>, lo: int, hi: int) -> bool {
    exists|j: int| lo <= j < hi && magic_at(s, j)
}

/// The position that [`first_magic_from`] finds is the first one.
pub proof fn lemma_first_magic_from(s: Seq<u8>, i: int)
    requires
        0 <= i,
    ensures
        first_magic_from(s, i) == -1 <==> !magic_between(s, i, s.len() as int),
        first_magic_from(s, i) != -1 ==> {
            &&& i <= first_magic_from(s, i)
            &&& magic_at(s, first_magic_from(s, i))
            &&& !magic_between(s, i, first_magic_from(s, i))
        },
    decreases s.len() - i,
{
    if i + 4 > s.len() {
    } else if magic_at(s, i) {
    } else {
        lemma_first_magic_from(s, i + 1);
        if magic_between(s, i, s.len() as int) {
            let j = choose|j: int| i <= j < s.len() && magic_at(s, j);
            assert(j != i);
            assert(magic_between(s, i + 1, s.len() as int));
        }
    }
}

/// What the device answered: a parsed ACK frame, or nothing.
pub open spec fn ack_of(s: Seq<u8>) -> Option<SebootAck> {
    let p = first_magic_from(s, 0);
    if s.len() < 12 || p < 0 || s.len() - p < 12 {
        None
    } else {
        Some(SebootAck { frame_type: s[p + 6], result: s[p + 8], error_code: s[p + 9] })
    }
}

/// Finds the first position where the magic number starts.
fn find_magic(data: &[u8]) -> (r: Option<usize>)
    ensures
        match r {
            Some(p) => first_magic_from(data@, 0) == p as int && p + 4 <= data@.len(),
            None => first_magic_from(data@, 0) == -1,
        },
{
    let n = data.len();
    if n < 4 {
        return None;
    }
    let mut i: usize = 0;
    while i <= n - 4
        invariant
            n == data@.len(),
            4 <= n,
            i + 3 <= n,
            first_magic_from(data@, 0) == first_magic_from(data@, i as int),
        decreases n - i,
    {
        if data[i] == 0xEF && data[i + 1] == 0xBE && data[i + 2] == 0xAD && data[i + 3] == 0xDE {
            return Some(i);
        }
        i = i + 1;
    }
    None
}

/// SEBOOT ACK frame parser.
#[derive(Debug, Clone, Copy, PartialEq, Eq, Structural)]
pub struct SebootAck {
    /// Frame type from response.
    pub frame_type: u8,
    /// Result code (0x5A = success).
    pub result: u8,
    /// Error code (if result != 0x5A).
    pub error_code: u8,
}

impl SebootAck {
    /// A handshake ACK frame as the device sends it (CRC left as zero).
    pub const HANDSHAKE_ACK: [u8; 12] = [
        0xEF, 0xBE, 0xAD, 0xDE, 0x0C, 0x00, 0xE1, 0x1E, 0x5A, 0x00, 0x00, 0x00,
    ];

    /// Parses an ACK frame out of raw bytes: the frame starts at the first
    /// magic number, and at least 12 bytes must follow from there.
    pub fn parse(data: &[u8]) -> (r: Option<SebootAck>)
        ensures
            r == ack_of(data@),
    {
        if data.len() < ACK_MIN_LEN {
            return None;
        }
        match find_magic(data) {
            None => None,
            Some(p) => {
                if data.len() - p < ACK_MIN_LEN {
                    None
                } else {
                    Some(
                        SebootAck {
                            frame_type: data[p + 6],
                            result: data[p + 8],
                            error_code: data[p + 9],
                        },
                    )
                }
            },
        }
    }

    /// Whether the device reported success.
    pub fn is_success(&self) -> (r: bool)
        ensures
            r == (self.result == ACK_SUCCESS),
    {
        self.result == ACK_SUCCESS
    }

    /// Whether this is a successful ACK frame.
    pub fn is_handshake_ack(&self) -> (r: bool)
        ensures
            r == (self.frame_type == 0xE1 && self.result == ACK_SUCCESS),
    {
        self.frame_type == CommandType::Ack.code() && self.is_success()
    }
}

/// Whether the nine bytes of a handshake ACK (magic, length 12, type 0xE1,
/// 0x1E, result 0x5A) start at `i`, with a tenth byte after them.
pub open spec fn handshake_ack_at(s: Seq<u8>, i: int) -> bool {
    &&& 0 <= i
    &&& i + 10 <= s.len()
    &&& magic_at(s, i)
    &&& s[i + 4] == 0x0C
    &&& s[i + 5] == 0x00
    &&& s[i + 6] == 0xE1
    &&& s[i + 7] == 0x1E
    &&& s[i + 8] == 0x5A
}

/// Whether `data` holds a handshake ACK anywhere.
pub fn contains_handshake_ack(data: &[u8]) -> (r: bool)
    ensures
        r == exists|i: int| handshake_ack_at(data@, i),
{
    let n = data.len();
    if n < 10 {
        assert(forall|i: int| !handshake_ack_at(data@, i));
        return false;
    }
    let mut i: usize = 0;
    while i <= n - 10
        invariant
            n == data@.len(),
            10 <= n,
            i + 9 <= n,
            forall|j: int| 0 <= j < i ==> !handshake_ack_at(data@, j),
        decreases n - i,
    {
        if data[i] == 0xEF && data[i + 1] == 0xBE && data[i + 2] == 0xAD && data[i + 3] == 0xDE
            && data[i + 4] == 0x0C && data[i + 5] == 0x00 && data[i + 6] == 0xE1 && data[i
            + 7] == 0x1E && data[i + 8] == 0x5A {
            assert(handshake_ack_at(data@, i as int));
            return true;
        }
        i = i + 1;
    }
    assert forall|j: int| !handshake_ack_at(data@, j) by {
        if 0 <= j && j + 10 <= n {
            assert(j < i);
        }
    }
    false
}


/// An ACK reads back as the device wrote it: a frame of type `t` whose
/// payload is a result byte and an error code parses to exactly those.
pub proof fn lemma_ack_reads_frame(t: u8, result: u8, error_code: u8)
    ensures
        ack_of(frame_bytes(t, seq![result, error_code])) == Some(
            SebootAck { frame_type: t, result, error_code },
        ),
{
    let f = frame_bytes(t, seq![result, error_code]);
    let m: u32 = FRAME_MAGIC;
    assert((m & 0xff) as u8 == 0xEF && ((m >> 8) & 0xff) as u8 == 0xBE && ((m >> 16) & 0xff) as u8 == 0xAD && ((m
        >> 24) & 0xff) as u8 == 0xDE) by (bit_vector)
        requires
            m == 0xDEADBEEFu32,
    ;
    assert(magic_at(f, 0));
    assert(first_magic_from(f, 0) == 0);
    assert(f.len() == 12);
    assert(f[6] == t && f[8] == result && f[9] == error_code);
}

/// Every SEBOOT frame of a command starts with the magic EF BE AD DE and
/// carries at bytes 6 and 7 the command's fixed type byte and its
/// complement, whatever the payload: F0 handshake, E1 ACK, D2 download
/// flash image, C3 download OTP/eFuse, B4 upload data, A5 read OTP/eFuse,
/// 96 flash lock, 87 reset, 78 download factory bin, 69 download version,
/// 5A set baud rate, 4B download NV, 1E switch to DFU. No two commands share
/// a type byte, so a frame tells the device which command it is.
pub proof fn lemma_seboot_command_bytes(t: CommandType, d: Seq<u8>)
    ensures
        ({
            let f = frame_bytes(command_code(t), d);
            &&& f.len() == d.len() + 10
            &&& f[0] == 0xEF && f[1] == 0xBE && f[2] == 0xAD && f[3] == 0xDE
            &&& f[6] == match t {
                CommandType::Handshake => 0xF0u8,
                CommandType::Ack => 0xE1u8,
                CommandType::DownloadFlashImage => 0xD2u8,
                CommandType::DownloadOtpEfuse => 0xC3u8,
                CommandType::UploadData => 0xB4u8,
                CommandType::ReadOtpEfuse => 0xA5u8,
                CommandType::FlashLock => 0x96u8,
                CommandType::Reset => 0x87u8,
                CommandType::DownloadFactoryBin => 0x78u8,
                CommandType::DownloadVersion => 0x69u8,
                CommandType::SetBaudRate => 0x5Au8,
                CommandType::DownloadNv => 0x4Bu8,
                CommandType::SwitchDfu => 0x1Eu8,
            }
            &&& f[6] + f[7] == 0xFF
        }),
        forall|other: CommandType| command_code(other) == command_code(t) ==> other == t,
{
    let c = command_code(t);
    let f = frame_bytes(c, d);
    let m: u32 = FRAME_MAGIC;
    assert((m & 0xff) as u8 == 0xEF && ((m >> 8) & 0xff) as u8 == 0xBE && ((m >> 16) & 0xff) as u8 == 0xAD && ((m
        >> 24) & 0xff) as u8 == 0xDE) by (bit_vector)
        requires
            m == 0xDEADBEEFu32,
    ;
    assert(f[6] == c && f[7] == !c);
    assert(c + !c == 0xFF) by (bit_vector);
}

/// An image type number read from a device gives back the same number when
/// its type is written out, for the numbers with a type of their own (0 and
/// 2 to 7); every other number reads as a normal image (number 1). Distinct
/// image types have distinct numbers.
pub proof fn lemma_image_type_numbers(v: u32, a: ImageType, b: ImageType)
    ensures
        (v == 0 || (2 <= v && v <= 7)) ==> image_type_number(image_type_of(v)) == v,
        !(v == 0 || (2 <= v && v <= 7)) ==> image_type_of(v) == ImageType::Normal && image_type_number(ImageType::Normal) == 1,
        image_type_number(a) == image_type_number(b) ==> a == b,
{
}

} // verus!
