//! FWPKG, HiSilicon's firmware package format.
//!
//! A package is a header, an array of partition descriptors ("bin infos")
//! and the partition data they point into. All numbers are little-endian.
//!
//! - V1 (magic `0xEFBEADDF`): 12-byte header, 52-byte bin infos with a
//!   32-byte name.
//! - V2 (magic `0xEFBEADD0..=0xEFBEADDE`): 272-byte header that ends with a
//!   260-byte package name, 284-byte bin infos with a 260-byte name and
//!   4 bytes of padding.
//!
//! Names are NUL-terminated within their field.
use crate::bytes::{get_u16_le, get_u32_le, seq_le16, seq_le32};
use crate::crc::{crc16_spec, crc16_xmodem};
use crate::error::{is_io_kind, Error, IoError, IoErrorKind};
use vstd::prelude::*;
use vstd::utf8::{decode_utf8, valid_utf8};

verus! {

/// FWPKG V1 magic number.
pub const FWPKG_MAGIC_V1: u32 = 0xEFBEADDF;

/// Smallest FWPKG V2 magic number.
pub const FWPKG_MAGIC_V2_MIN: u32 = 0xEFBEADD0;

/// Largest FWPKG V2 magic number.
pub const FWPKG_MAGIC_V2_MAX: u32 = 0xEFBEADDE;

/// Legacy alias for the V1 magic.
pub const FWPKG_MAGIC: u32 = 0xEFBEADDF;

/// Maximum number of partitions in a package.
pub const MAX_PARTITIONS: usize = 255;

/// V1 header size in bytes.
pub const HEADER_SIZE_V1: usize = 12;

/// V2 header size in bytes (includes the 260-byte name).
pub const HEADER_SIZE_V2: usize = 272;

/// Legacy alias for the V1 header size.
pub const HEADER_SIZE: usize = 12;

/// V1 bin info size: name (32) + offset + length + burn address + burn size + type.
pub const BIN_INFO_SIZE_V1: usize = 52;

/// V2 bin info size: name (260) + five numbers + 4 bytes of padding.
pub const BIN_INFO_SIZE_V2: usize = 284;

/// Legacy alias for the V1 bin info size.
pub const BIN_INFO_SIZE: usize = 52;

/// V1 name field size.
pub const NAME_SIZE_V1: usize = 32;

/// V2 name field size.
pub const NAME_SIZE_V2: usize = 260;

/// The text that std's `String::from_utf8_lossy` makes of some bytes.
pub uninterp spec fn lossy_text(b: Seq<u8>) -> Seq<char>;

/// Decodes bytes with std's `String::from_utf8_lossy`.
///
/// Claimed of the outside code: the result is a function of the bytes alone
/// (named `lossy_text`), valid UTF-8 decodes to exactly its characters, and
/// every character stands for at least one byte (a character of the input,
/// or one replacement character for an invalid sequence), so there are no
/// more characters than bytes. Which replacements are made is left unsaid
/// here.
#[verifier::external_body]
fn text_from_bytes(b: &[u8]) -> (r: String)
    ensures
        r@ == lossy_text(b@),
        r@.len() <= b@.len(),
        valid_utf8(b@) ==> r@ == decode_utf8(b@),
{
    String::from_utf8_lossy(b).to_string()
}

/// FWPKG format version.
#[derive(Debug, Clone, Copy, PartialEq, Eq, Structural)]
pub enum FwpkgVersion {
    /// V1: the first format, with 32-byte names.
    V1,
    /// V2: new format with 260-byte names and a package name.
    V2,
}

/// Whether a magic number marks a V1 package.
pub open spec fn is_v1_magic(m: u32) -> bool {
    m == FWPKG_MAGIC_V1
}

/// Whether a magic number marks a V2 package.
pub open spec fn is_v2_magic(m: u32) -> bool {
    FWPKG_MAGIC_V2_MIN <= m <= FWPKG_MAGIC_V2_MAX
}

/// Header size of a version.
pub open spec fn header_size_of(v: FwpkgVersion) -> int {
    match v {
        FwpkgVersion::V1 => 12,
        FwpkgVersion::V2 => 272,
    }
}

/// Bin info size of a version.
pub open spec fn bin_info_size_of(v: FwpkgVersion) -> int {
    match v {
        FwpkgVersion::V1 => 52,
        FwpkgVersion::V2 => 284,
    }
}

/// Name field size of a version.
pub open spec fn name_size_of(v: FwpkgVersion) -> int {
    match v {
        FwpkgVersion::V1 => 32,
        FwpkgVersion::V2 => 260,
    }
}

/// The first position in `i..end` that holds a zero byte, or `end`.
pub open spec fn nul_pos(s: Seq<u8>, i: int, end: int) -> int
    decreases end - i,
{
    if i >= end {
        end
    } else if s[i] == 0 {
        i
    } else {
        nul_pos(s, i + 1, end)
    }
}

/// The bytes of a NUL-terminated name field of `size` bytes at `start`.
pub open spec fn field_bytes(s: Seq<u8>, start: int, size: int) -> Seq<u8> {
    s.subrange(start, nul_pos(s, start, start + size))
}

/// The text of a NUL-terminated name field.
pub open spec fn field_text(s: Seq<u8>, start: int, size: int) -> Seq<char> {
    lossy_text(field_bytes(s, start, size))
}

proof fn lemma_nul_pos_bounds(s: Seq<u8>, i: int, end: int)
    requires
        i <= end,
    ensures
        i <= nul_pos(s, i, end) <= end,
    decreases end - i,
{
    if i < end && s[i] != 0 {
        lemma_nul_pos_bounds(s, i + 1, end);
    }
}

/// Reads the NUL-terminated name field of `size` bytes at `start`.
fn read_name(data: &[u8], start: usize, size: usize) -> (r: String)
    requires
        start + size <= data@.len(),
    ensures
        r@ == field_text(data@, start as int, size as int),
        r@.len() <= size,
{
    let n = data.len();
    let end = start + size;
    let mut i = start;
    while i < end && data[i] != 0
        invariant
            n == data@.len(),
            start <= i <= end,
            end == start + size,
            end <= data@.len(),
            nul_pos(data@, start as int, end as int) == nul_pos(data@, i as int, end as int),
        decreases end - i,
    {
        i = i + 1;
    }
    let field = &data[start..i];
    text_from_bytes(field)
}

/// The version that a magic number selects when a header is read.
pub open spec fn version_of_magic(m: u32) -> FwpkgVersion {
    if is_v2_magic(m) {
        FwpkgVersion::V2
    } else {
        FwpkgVersion::V1
    }
}

/// Whether the header at the start of `s` can be read: 12 bytes, and all
/// 272 when the magic says V2.
pub open spec fn header_readable(s: Seq<u8>) -> bool {
    &&& s.len() >= 12
    &&& is_v2_magic(seq_le32(s, 0)) ==> s.len() >= 272
}

/// FWPKG file header.
#[derive(Debug, Clone)]
pub struct FwpkgHeader {
    /// Magic number (V1: 0xEFBEADDF, V2: 0xEFBEADD0..=0xEFBEADDE).
    pub magic: u32,
    /// CRC16-XMODEM checksum (over everything from the `cnt` field to the
    /// end of the bin info array).
    pub crc: u16,
    /// Number of partitions.
    pub cnt: u16,
    /// Total firmware size.
    pub len: u32,
    /// Package name (V2 only, empty for V1).
    pub name: String,
    /// Format version.
    pub version: FwpkgVersion,
}

/// Whether `h` is the header that the start of `s` holds.
pub open spec fn header_matches(h: FwpkgHeader, s: Seq<u8>) -> bool {
    &&& h.magic == seq_le32(s, 0)
    &&& h.crc == seq_le16(s, 4)
    &&& h.cnt == seq_le16(s, 6)
    &&& h.len == seq_le32(s, 8)
    &&& h.version == version_of_magic(h.magic)
    &&& h.name@ == (if h.version == FwpkgVersion::V2 {
        field_text(s, 12, 260)
    } else {
        Seq::<char>::empty()
    })
    &&& h.name@.len() <= 260
}

/// Whether a header has a known magic number and at most 255 partitions.
pub open spec fn header_valid(h: FwpkgHeader) -> bool {
    (is_v1_magic(h.magic) || is_v2_magic(h.magic)) && h.cnt <= 255
}

fn unexpected_eof() -> (r: Error)
    ensures
        is_io_kind(r, IoErrorKind::UnexpectedEof),
{
    Error::Io(IoError::new(IoErrorKind::UnexpectedEof, String::from_str("failed to fill whole buffer")))
}

impl FwpkgHeader {
    /// Reads a header from the start of `data`; the magic number decides the
    /// version.
    pub fn read_from(data: &[u8]) -> (r: Result<FwpkgHeader, Error>)
        ensures
            r is Ok <==> header_readable(data@),
            r matches Ok(h) ==> header_matches(h, data@),
            r matches Err(e) ==> is_io_kind(e, IoErrorKind::UnexpectedEof),
    {
        if data.len() < 12 {
            return Err(unexpected_eof());
        }
        let magic = get_u32_le(data);
        let crc = get_u16_le(&data[4..6]);
        let cnt = get_u16_le(&data[6..8]);
        let len = get_u32_le(&data[8..12]);
        if FWPKG_MAGIC_V2_MIN <= magic && magic <= FWPKG_MAGIC_V2_MAX {
            if data.len() < HEADER_SIZE_V2 {
                return Err(unexpected_eof());
            }
            let name = read_name(data, 12, NAME_SIZE_V2);
            Ok(FwpkgHeader { magic, crc, cnt, len, name, version: FwpkgVersion::V2 })
        } else {
            Ok(FwpkgHeader { magic, crc, cnt, len, name: String::new(), version: FwpkgVersion::V1 })
        }
    }

    /// Whether the magic number is known and there are at most 255 partitions.
    pub fn is_valid(&self) -> (r: bool)
        ensures
            r == header_valid(*self),
    {
        let valid_magic = self.magic == FWPKG_MAGIC_V1 || (FWPKG_MAGIC_V2_MIN <= self.magic
            && self.magic <= FWPKG_MAGIC_V2_MAX);
        valid_magic && self.cnt <= 255
    }

    /// Header size of this header's version.
    pub fn header_size(&self) -> (r: usize)
        ensures
            r == header_size_of(self.version),
    {
        match self.version {
            FwpkgVersion::V1 => HEADER_SIZE_V1,
            FwpkgVersion::V2 => HEADER_SIZE_V2,
        }
    }

    /// Bin info size of this header's version.
    pub fn bin_info_size(&self) -> (r: usize)
        ensures
            r == bin_info_size_of(self.version),
    {
        match self.version {
            FwpkgVersion::V1 => BIN_INFO_SIZE_V1,
            FwpkgVersion::V2 => BIN_INFO_SIZE_V2,
        }
    }
}

/// Partition/image type.
#[derive(Debug, Clone, Copy, PartialEq, Eq, Structural)]
pub enum PartitionType {
    /// LoaderBoot (first-stage bootloader).
    Loader,
    /// Normal firmware partition.
    Normal,
    /// Key-Value NV storage.
    KvNv,
    /// eFuse data.
    Efuse,
    /// OTP data.
    Otp,
    /// FlashBoot (second-stage bootloader).
    Flashboot,
    /// Factory data.
    Factory,
    /// Version information.
    Version,
    /// Security partition A.
    SecurityA,
    /// Security partition B.
    SecurityB,
    /// Security partition C.
    SecurityC,
    /// Protocol partition A.
    ProtocolA,
    /// Apps partition A.
    AppsA,
    /// Radio configuration.
    RadioConfig,
    /// ROM image.
    Rom,
    /// eMMC image.
    Emmc,
    /// Database (typically skipped in UI).
    Database,
    /// Unknown partition type.
    Unknown(u32),
}

/// The partition type that a number stands for.
pub open spec fn partition_type_of(v: u32) -> PartitionType {
    if v == 0 {
        PartitionType::Loader
    } else if v == 1 {
        PartitionType::Normal
    } else if v == 2 {
        PartitionType::KvNv
    } else if v == 3 {
        PartitionType::Efuse
    } else if v == 4 {
        PartitionType::Otp
    } else if v == 5 {
        PartitionType::Flashboot
    } else if v == 6 {
        PartitionType::Factory
    } else if v == 7 {
        PartitionType::Version
    } else if v == 8 {
        PartitionType::SecurityA
    } else if v == 9 {
        PartitionType::SecurityB
    } else if v == 10 {
        PartitionType::SecurityC
    } else if v == 11 {
        PartitionType::ProtocolA
    } else if v == 12 {
        PartitionType::AppsA
    } else if v == 13 {
        PartitionType::RadioConfig
    } else if v == 14 {
        PartitionType::Rom
    } else if v == 15 {
        PartitionType::Emmc
    } else if v == 16 {
        PartitionType::Database
    } else {
        PartitionType::Unknown(v)
    }
}

/// The number of a partition type.
pub open spec fn partition_type_number(t: PartitionType) -> u32 {
    match t {
        PartitionType::Loader => 0,
        PartitionType::Normal => 1,
        PartitionType::KvNv => 2,
        PartitionType::Efuse => 3,
        PartitionType::Otp => 4,
        PartitionType::Flashboot => 5,
        PartitionType::Factory => 6,
        PartitionType::Version => 7,
        PartitionType::SecurityA => 8,
        PartitionType::SecurityB => 9,
        PartitionType::SecurityC => 10,
        PartitionType::ProtocolA => 11,
        PartitionType::AppsA => 12,
        PartitionType::RadioConfig => 13,
        PartitionType::Rom => 14,
        PartitionType::Emmc => 15,
        PartitionType::Database => 16,
        PartitionType::Unknown(v) => v,
    }
}

impl PartitionType {
    /// The partition type that a number stands for.
    pub fn from_u32(v: u32) -> (r: PartitionType)
        ensures
            r == partition_type_of(v),
    {
        if v == 0 {
            PartitionType::Loader
        } else if v == 1 {
            PartitionType::Normal
        } else if v == 2 {
            PartitionType::KvNv
        } else if v == 3 {
            PartitionType::Efuse
        } else if v == 4 {
            PartitionType::Otp
        } else if v == 5 {
            PartitionType::Flashboot
        } else if v == 6 {
            PartitionType::Factory
        } else if v == 7 {
            PartitionType::Version
        } else if v == 8 {
            PartitionType::SecurityA
        } else if v == 9 {
            PartitionType::SecurityB
        } else if v == 10 {
            PartitionType::SecurityC
        } else if v == 11 {
            PartitionType::ProtocolA
        } else if v == 12 {
            PartitionType::AppsA
        } else if v == 13 {
            PartitionType::RadioConfig
        } else if v == 14 {
            PartitionType::Rom
        } else if v == 15 {
            PartitionType::Emmc
        } else if v == 16 {
            PartitionType::Database
        } else {
            PartitionType::Unknown(v)
        }
    }

    /// The numeric value of this partition type.
    pub fn as_u32(&self) -> (r: u32)
        ensures
            r == partition_type_number(*self),
    {
        match self {
            PartitionType::Loader => 0,
            PartitionType::Normal => 1,
            PartitionType::KvNv => 2,
            PartitionType::Efuse => 3,
            PartitionType::Otp => 4,
            PartitionType::Flashboot => 5,
            PartitionType::Factory => 6,
            PartitionType::Version => 7,
            PartitionType::SecurityA => 8,
            PartitionType::SecurityB => 9,
            PartitionType::SecurityC => 10,
            PartitionType::ProtocolA => 11,
            PartitionType::AppsA => 12,
            PartitionType::RadioConfig => 13,
            PartitionType::Rom => 14,
            PartitionType::Emmc => 15,
            PartitionType::Database => 16,
            PartitionType::Unknown(v) => *v,
        }
    }
}

impl From<u32> for PartitionType {
    fn from(value: u32) -> (r: PartitionType) {
        PartitionType::from_u32(value)
    }
}

impl vstd::std_specs::convert::FromSpecImpl<u32> for PartitionType {
    open spec fn obeys_from_spec() -> bool {
        true
    }

    open spec fn from_spec(v: u32) -> PartitionType {
        partition_type_of(v)
    }
}

/// FWPKG partition information.
#[derive(Debug, Clone)]
pub struct FwpkgBinInfo {
    /// Partition name: the name field up to its first NUL, and at most 31
    /// bytes in V1 or 259 in V2 (the field's last byte is its terminator).
    pub name: String,
    /// Offset of the partition data within the package.
    pub offset: u32,
    /// Data length.
    pub length: u32,
    /// Burn address in flash.
    pub burn_addr: u32,
    /// Burn size (may differ from length due to alignment).
    pub burn_size: u32,
    /// Partition type.
    pub partition_type: PartitionType,
}

/// Whether `b` is the bin info that `s` holds at `off` in version `v`; the
/// name is read from all but the last byte of its field.
pub open spec fn bin_matches(b: FwpkgBinInfo, s: Seq<u8>, off: int, v: FwpkgVersion) -> bool {
    let ns = name_size_of(v);
    &&& b.name@ == field_text(s, off, ns - 1)
    &&& b.name@.len() <= ns - 1
    &&& b.offset == seq_le32(s, off + ns)
    &&& b.length == seq_le32(s, off + ns + 4)
    &&& b.burn_addr == seq_le32(s, off + ns + 8)
    &&& b.burn_size == seq_le32(s, off + ns + 12)
    &&& b.partition_type == partition_type_of(seq_le32(s, off + ns + 16))
}

fn read_bin_at(data: &[u8], off: usize, version: FwpkgVersion) -> (r: FwpkgBinInfo)
    requires
        off + bin_info_size_of(version) <= data@.len(),
    ensures
        bin_matches(r, data@, off as int, version),
{
    let n = data.len();
    let ns: usize = match version {
        FwpkgVersion::V1 => NAME_SIZE_V1,
        FwpkgVersion::V2 => NAME_SIZE_V2,
    };
    let name = read_name(data, off, ns - 1);
    let p = off + ns;
    let offset = get_u32_le(&data[p..p + 4]);
    let length = get_u32_le(&data[p + 4..p + 8]);
    let burn_addr = get_u32_le(&data[p + 8..p + 12]);
    let burn_size = get_u32_le(&data[p + 12..p + 16]);
    let type_value = get_u32_le(&data[p + 16..p + 20]);
    FwpkgBinInfo {
        name,
        offset,
        length,
        burn_addr,
        burn_size,
        partition_type: PartitionType::from_u32(type_value),
    }
}

impl FwpkgBinInfo {
    /// Reads a bin info of the given version from the start of `data`.
    pub fn read_from(data: &[u8], version: FwpkgVersion) -> (r: Result<FwpkgBinInfo, Error>)
        ensures
            r is Ok <==> data@.len() >= bin_info_size_of(version),
            r matches Ok(b) ==> bin_matches(b, data@, 0, version),
            r matches Err(e) ==> is_io_kind(e, IoErrorKind::UnexpectedEof),
    {
        let size: usize = match version {
            FwpkgVersion::V1 => BIN_INFO_SIZE_V1,
            FwpkgVersion::V2 => BIN_INFO_SIZE_V2,
        };
        if data.len() < size {
            return Err(unexpected_eof());
        }
        Ok(read_bin_at(data, 0, version))
    }

    /// Whether this is the LoaderBoot partition.
    pub fn is_loaderboot(&self) -> (r: bool)
        ensures
            r == (self.partition_type == PartitionType::Loader),
    {
        self.partition_type == PartitionType::Loader
    }
}

/// How parsing a package ends.
pub enum FwpkgOutcome {
    /// Fewer than 12 bytes.
    TooSmall,
    /// A V2 magic with fewer than 272 bytes.
    Truncated,
    /// Unknown magic or more than 255 partitions.
    Invalid,
    /// The bin info array does not fit.
    MissingPartitions,
    /// A package.
    Parsed,
}

/// How `from_bytes` ends on `s`.
pub open spec fn fwpkg_outcome(s: Seq<u8>) -> FwpkgOutcome {
    let magic = seq_le32(s, 0);
    let cnt = seq_le16(s, 6);
    let v = version_of_magic(magic);
    if s.len() < 12 {
        FwpkgOutcome::TooSmall
    } else if is_v2_magic(magic) && s.len() < 272 {
        FwpkgOutcome::Truncated
    } else if !((is_v1_magic(magic) || is_v2_magic(magic)) && cnt <= 255) {
        FwpkgOutcome::Invalid
    } else if s.len() < header_size_of(v) + cnt * bin_info_size_of(v) {
        FwpkgOutcome::MissingPartitions
    } else {
        FwpkgOutcome::Parsed
    }
}

/// Whether `bins` are the `n` bin infos that follow the header in `s`.
pub open spec fn bins_match(bins: Seq<FwpkgBinInfo>, s: Seq<u8>, v: FwpkgVersion, n: int) -> bool {
    &&& bins.len() == n
    &&& forall|i: int|
        0 <= i < n ==> #[trigger] bin_matches(
            bins[i],
            s,
            header_size_of(v) + i * bin_info_size_of(v),
            v,
        )
}

/// Whether a partition is one of the normal ones, not a loader.
pub open spec fn normal_pred() -> spec_fn(FwpkgBinInfo) -> bool {
    |b: FwpkgBinInfo| b.partition_type != PartitionType::Loader
}

/// Whether a partition is a loader.
pub open spec fn loader_pred() -> spec_fn(FwpkgBinInfo) -> bool {
    |b: FwpkgBinInfo| b.partition_type == PartitionType::Loader
}

proof fn lemma_split_count(s: Seq<FwpkgBinInfo>)
    ensures
        s.filter(normal_pred()).len() + s.filter(loader_pred()).len() == s.len(),
    decreases s.len(),
{
    reveal_with_fuel(Seq::<_>::filter, 1);
    if s.len() > 0 {
        lemma_split_count(s.drop_last());
    }
}

/// Every partition of a package is a loader or a normal partition, never
/// both: the normal partitions ([`Fwpkg::normal_bins`]) and the loaders
/// together number [`Fwpkg::partition_count`], and the normal partitions
/// are all of them exactly when there is no loader
/// ([`Fwpkg::loaderboot`] finds none).
pub proof fn lemma_partitions_split(p: Fwpkg)
    ensures
        p.bin_list().filter(normal_pred()).len() + p.bin_list().filter(loader_pred()).len() == p.bin_list().len(),
        p.bin_list().filter(normal_pred()).len() == p.bin_list().len() <==> forall|j: int|
            0 <= j < p.bin_list().len() ==> p.bin_list()[j].partition_type != PartitionType::Loader,
{
    let s = p.bin_list();
    lemma_split_count(s);
    if exists|j: int| 0 <= j < s.len() && s[j].partition_type == PartitionType::Loader {
        let j = choose|j: int| 0 <= j < s.len() && s[j].partition_type == PartitionType::Loader;
        s.lemma_filter_contains(loader_pred(), j);
    } else {
        assert(s.filter(loader_pred()).len() == 0) by {
            if s.filter(loader_pred()).len() > 0 {
                s.lemma_filter_pred(loader_pred(), 0);
                let x = s.filter(loader_pred())[0];
                s.lemma_filter_contains_rev(loader_pred(), x);
            }
        }
    }
}


/// Parsed FWPKG firmware package.
pub struct Fwpkg {
    /// File header.
    pub header: FwpkgHeader,
    /// Partition information.
    pub bins: Vec<FwpkgBinInfo>,
    pub(crate) data: Vec<u8>,
}

impl Fwpkg {
    /// The raw bytes the package was parsed from.
    pub closed spec fn raw(self) -> Seq<u8> {
        self.data@
    }

    /// The header: the public field `header`.
    pub open(crate) spec fn hdr(self) -> FwpkgHeader {
        self.header
    }

    /// The partition list: the public field `bins`.
    pub open(crate) spec fn bin_list(self) -> Seq<FwpkgBinInfo> {
        self.bins@
    }

    /// Parses a package from raw bytes.
    pub fn from_bytes(data: Vec<u8>) -> (r: Result<Fwpkg, Error>)
        ensures
            match fwpkg_outcome(data@) {
                FwpkgOutcome::Parsed => r matches Ok(p) && {
                    &&& header_matches(p.hdr(), data@)
                    &&& bins_match(p.bin_list(), data@, p.hdr().version, p.hdr().cnt as int)
                    &&& p.raw() == data@
                },
                FwpkgOutcome::Truncated => r matches Err(e) && is_io_kind(
                    e,
                    IoErrorKind::UnexpectedEof,
                ),
                FwpkgOutcome::TooSmall => r matches Err(Error::InvalidFwpkg(m)) && m@ == "File too small for header"@,
                FwpkgOutcome::Invalid => r matches Err(Error::InvalidFwpkg(m)) && m@ == "Invalid magic"@,
                FwpkgOutcome::MissingPartitions => r matches Err(Error::InvalidFwpkg(m)) && m@
                    == "File too small for partitions"@,
            },
    {
        if data.len() < HEADER_SIZE_V1 {
            return Err(Error::InvalidFwpkg(String::from_str("File too small for header")));
        }
        let header = match FwpkgHeader::read_from(data.as_slice()) {
            Ok(h) => h,
            Err(e) => return Err(e),
        };
        if !header.is_valid() {
            return Err(Error::InvalidFwpkg(String::from_str("Invalid magic")));
        }
        let bin_count = header.cnt as usize;
        let hs = header.header_size();
        let bs = header.bin_info_size();
        let expected_size = hs + bin_count * bs;
        if data.len() < expected_size {
            return Err(Error::InvalidFwpkg(String::from_str("File too small for partitions")));
        }
        let mut bins: Vec<FwpkgBinInfo> = Vec::with_capacity(bin_count);
        let mut i: usize = 0;
        while i < bin_count
            invariant
                bin_count == header.cnt as usize,
                bin_count <= 255,
                hs == header_size_of(header.version),
                bs == bin_info_size_of(header.version),
                hs + bin_count * bs <= data@.len(),
                i <= bin_count,
                bins_match(bins@, data@, header.version, i as int),
            decreases bin_count - i,
        {
            let off = hs + i * bs;
            assert(off + bs <= hs + bin_count * bs) by (nonlinear_arith)
                requires
                    i < bin_count,
                    off == hs + i * bs,
            ;
            let b = read_bin_at(data.as_slice(), off, header.version);
            bins.push(b);
            i = i + 1;
            assert forall|j: int| 0 <= j < i implies #[trigger] bin_matches(
                bins@[j],
                data@,
                header_size_of(header.version) + j * bin_info_size_of(header.version),
                header.version,
            ) by {
                if j < i - 1 {
                } else {
                }
            }
        }
        Ok(Fwpkg { header, bins, data })
    }

    /// The format version.
    pub fn version(&self) -> (r: FwpkgVersion)
        ensures
            r == self.hdr().version,
    {
        self.header.version
    }

    /// The package name (V2 only, empty for V1).
    pub fn package_name(&self) -> (r: &str)
        ensures
            r@ == self.hdr().name@,
    {
        self.header.name.as_str()
    }

    /// The first LoaderBoot partition, if any.
    pub fn loaderboot(&self) -> (r: Option<&FwpkgBinInfo>)
        ensures
            match r {
                Some(b) => exists|i: int|
                    0 <= i < self.bin_list().len() && self.bin_list()[i] == *b && b.partition_type
                        == PartitionType::Loader && forall|j: int|
                        0 <= j < i ==> self.bin_list()[j].partition_type != PartitionType::Loader,
                None => forall|j: int|
                    0 <= j < self.bin_list().len() ==> self.bin_list()[j].partition_type
                        != PartitionType::Loader,
            },
    {
        let mut i: usize = 0;
        while i < self.bins.len()
            invariant
                i <= self.bin_list().len(),
                forall|j: int| 0 <= j < i ==> self.bin_list()[j].partition_type != PartitionType::Loader,
            decreases self.bin_list().len() - i,
        {
            if self.bins[i].is_loaderboot() {
                return Some(&self.bins[i]);
            }
            i = i + 1;
        }
        None
    }

    /// All partitions that are not LoaderBoot, in order.
    pub fn normal_bins(&self) -> (r: Vec<&FwpkgBinInfo>)
        ensures
            r@.map_values(|b: &FwpkgBinInfo| *b) == self.bin_list().filter(normal_pred()),
    {
        let ghost pred = normal_pred();
        let mut r: Vec<&FwpkgBinInfo> = Vec::new();
        let mut i: usize = 0;
        while i < self.bins.len()
            invariant
                i <= self.bin_list().len(),
                pred == normal_pred(),
                r@.map_values(|b: &FwpkgBinInfo| *b) == self.bin_list().subrange(0, i as int).filter(pred),
            decreases self.bin_list().len() - i,
        {
            proof {
                reveal_with_fuel(Seq::<_>::filter, 1);
                assert(self.bin_list().subrange(0, i + 1).drop_last() =~= self.bin_list().subrange(0, i as int));
            }
            let ghost before = r@;
            if !self.bins[i].is_loaderboot() {
                r.push(&self.bins[i]);
                assert(r@.map_values(|b: &FwpkgBinInfo| *b) =~= before.map_values(|b: &FwpkgBinInfo| *b).push(self.bin_list()[i as int]));
            }
            i = i + 1;
        }
        assert(self.bin_list().subrange(0, self.bin_list().len() as int) =~= self.bin_list());
        r
    }

    /// The data of a partition: `length` bytes from `offset`.
    pub fn bin_data(&self, bin: &FwpkgBinInfo) -> (r: Result<&[u8], Error>)
        ensures
            r is Ok <==> bin.offset + bin.length <= self.raw().len(),
            r matches Ok(d) ==> d@ == self.raw().subrange(
                bin.offset as int,
                bin.offset + bin.length,
            ),
            r matches Err(e) ==> (e matches Error::InvalidFwpkg(m) && m@ == "Partition data out of bounds"@),
    {
        let start = bin.offset as u64;
        let end = start + bin.length as u64;
        if end > self.data.len() as u64 {
            return Err(Error::InvalidFwpkg(String::from_str("Partition data out of bounds")));
        }
        Ok(&self.data.as_slice()[start as usize..end as usize])
    }

    /// Checks the header CRC: CRC16-XMODEM over the bytes from 6 (after
    /// magic and CRC) to the end of the bin info array.
    pub fn verify_crc(&self) -> (r: Result<(), Error>)
        ensures
            ({
                let end = header_size_of(self.hdr().version) + self.bin_list().len()
                    * bin_info_size_of(self.hdr().version);
                &&& r is Ok <==> end <= self.raw().len() && crc16_spec(
                    self.raw().subrange(6, end),
                ) == self.hdr().crc
                &&& end > self.raw().len() ==> (r matches Err(Error::InvalidFwpkg(m)) && m@ == (if self.raw().len()
                    < header_size_of(self.hdr().version) {
                    "File too small"@
                } else {
                    "File too small for CRC verification"@
                }))
                &&& end <= self.raw().len() && crc16_spec(self.raw().subrange(6, end))
                    != self.hdr().crc ==> r == Err::<(), Error>(
                    Error::CrcMismatch {
                        expected: self.hdr().crc,
                        actual: crc16_spec(self.raw().subrange(6, end)),
                    },
                )
            }),
    {
        let header_size = self.header.header_size();
        if self.data.len() < header_size {
            return Err(Error::InvalidFwpkg(String::from_str("File too small")));
        }
        // An end past `usize::MAX` lies past the data as well.
        let crc_end = match self.bins.len().checked_mul(self.header.bin_info_size()) {
            Some(table) => match header_size.checked_add(table) {
                Some(end) => end,
                None => {
                    return Err(Error::InvalidFwpkg(String::from_str("File too small for CRC verification")));
                },
            },
            None => {
                return Err(Error::InvalidFwpkg(String::from_str("File too small for CRC verification")));
            },
        };
        if self.data.len() < crc_end {
            return Err(Error::InvalidFwpkg(String::from_str("File too small for CRC verification")));
        }
        let calculated = crc16_xmodem(&self.data.as_slice()[6..crc_end]);
        if calculated != self.header.crc {
            return Err(Error::CrcMismatch { expected: self.header.crc, actual: calculated });
        }
        Ok(())
    }

    /// The number of partitions.
    pub fn partition_count(&self) -> (r: usize)
        ensures
            r == self.bin_list().len(),
    {
        self.bins.len()
    }

    /// The first partition with the given name.
    pub fn find_by_name(&self, name: &str) -> (r: Option<&FwpkgBinInfo>)
        ensures
            match r {
                Some(b) => exists|i: int|
                    0 <= i < self.bin_list().len() && self.bin_list()[i] == *b && b.name@ == name@ && forall|
                        j: int,
                    | 0 <= j < i ==> self.bin_list()[j].name@ != name@,
                None => forall|j: int| 0 <= j < self.bin_list().len() ==> self.bin_list()[j].name@ != name@,
            },
    {
        let target = name.to_owned();
        let mut i: usize = 0;
        while i < self.bins.len()
            invariant
                i <= self.bin_list().len(),
                target@ == name@,
                forall|j: int| 0 <= j < i ==> self.bin_list()[j].name@ != name@,
            decreases self.bin_list().len() - i,
        {
            if self.bins[i].name == target {
                return Some(&self.bins[i]);
            }
            i = i + 1;
        }
        None
    }
}


/// A partition type number read and written back is the same number, and
/// a partition type written and read back is the same type, except an
/// `Unknown` that carries the number of a known type.
pub proof fn lemma_partition_type_roundtrip(v: u32, t: PartitionType)
    requires
        t matches PartitionType::Unknown(n) ==> n > 16,
    ensures
        partition_type_number(partition_type_of(v)) == v,
        partition_type_of(partition_type_number(t)) == t,
{
}

/// The partition types in the order of their documented numbers (the
/// image types of the package format): 0 LoaderBoot, 1 normal, 2 KV NV,
/// 3 eFuse, 4 OTP, 5 FlashBoot, 6 factory, 7 version, 8 to 10 security A
/// to C, 11 protocol A, 12 apps A, 13 radio configuration, 14 ROM, 15 eMMC,
/// 16 database.
pub open spec fn numbered_partition_types() -> Seq<PartitionType> {
    seq![
        PartitionType::Loader,
        PartitionType::Normal,
        PartitionType::KvNv,
        PartitionType::Efuse,
        PartitionType::Otp,
        PartitionType::Flashboot,
        PartitionType::Factory,
        PartitionType::Version,
        PartitionType::SecurityA,
        PartitionType::SecurityB,
        PartitionType::SecurityC,
        PartitionType::ProtocolA,
        PartitionType::AppsA,
        PartitionType::RadioConfig,
        PartitionType::Rom,
        PartitionType::Emmc,
        PartitionType::Database,
    ]
}

/// A partition type number reads as the type the format documents for it
/// (see [`numbered_partition_types`]), any other number as an unknown type
/// that keeps it, and the type's number is the number it was read from:
/// 3 is eFuse and 4 is OTP, never the other way round.
pub proof fn lemma_partition_type_numbers(v: u32)
    ensures
        v < 17 ==> partition_type_of(v) == numbered_partition_types()[v as int],
        v >= 17 ==> partition_type_of(v) == PartitionType::Unknown(v),
        partition_type_number(partition_type_of(v)) == v,
        forall|i: int| 0 <= i < 17 ==> partition_type_number(#[trigger] numbered_partition_types()[i]) == i,
{
    let t = numbered_partition_types();
    assert(t.len() == 17);
    assert forall|i: int| 0 <= i < 17 implies partition_type_number(#[trigger] t[i]) == i by {
        assert(t[0] == PartitionType::Loader);
        assert(t[1] == PartitionType::Normal);
        assert(t[2] == PartitionType::KvNv);
        assert(t[3] == PartitionType::Efuse);
        assert(t[4] == PartitionType::Otp);
        assert(t[5] == PartitionType::Flashboot);
        assert(t[6] == PartitionType::Factory);
        assert(t[7] == PartitionType::Version);
        assert(t[8] == PartitionType::SecurityA);
        assert(t[9] == PartitionType::SecurityB);
        assert(t[10] == PartitionType::SecurityC);
        assert(t[11] == PartitionType::ProtocolA);
        assert(t[12] == PartitionType::AppsA);
        assert(t[13] == PartitionType::RadioConfig);
        assert(t[14] == PartitionType::Rom);
        assert(t[15] == PartitionType::Emmc);
        assert(t[16] == PartitionType::Database);
    }
}

} // verus!
