//! The WS63 boot protocol: command frames whose second type byte is the
//! first one with its nibbles exchanged, and response frames.
use crate::bytes::{get_u16_le, le16, le32, lemma_le16_roundtrip, seq_le16};
use crate::seboot::{assemble_frame, first_magic_from, magic_at, nibble_swap, raw_frame, swap_nibbles};
use vstd::prelude::*;

verus! {

/// Frame magic number.
pub const FRAME_MAGIC: u32 = 0xDEADBEEF;

/// Default initial baud rate for handshake.
pub const DEFAULT_BAUD: u32 = 115200;

/// High-speed baud rate after handshake.
pub const HIGH_BAUD: u32 = 921600;

/// The first 10 bytes of a successful handshake response.
pub const HANDSHAKE_ACK: [u8; 10] = [0xEF, 0xBE, 0xAD, 0xDE, 0x0C, 0x00, 0xE1, 0x1E, 0x5A, 0x00];

/// WS63 command types.
#[derive(Debug, Clone, Copy, PartialEq, Eq, Structural)]
pub enum Command {
    /// Handshake command (establish connection), 0xF0.
    Handshake,
    /// Set baud rate command, 0x5A.
    SetBaudRate,
    /// Download/erase command, 0xD2.
    Download,
    /// Reset command, 0x87.
    Reset,
}

/// The byte of a WS63 command.
pub open spec fn ws63_code(c: Command) -> u8 {
    match c {
        Command::Handshake => 0xF0,
        Command::SetBaudRate => 0x5A,
        Command::Download => 0xD2,
        Command::Reset => 0x87,
    }
}

impl Command {
    /// The command byte.
    pub fn code(self) -> (r: u8)
        ensures
            r == ws63_code(self),
    {
        match self {
            Command::Handshake => 0xF0,
            Command::SetBaudRate => 0x5A,
            Command::Download => 0xD2,
            Command::Reset => 0x87,
        }
    }

    /// The swapped command byte (SCMD): the nibbles of CMD exchanged.
    pub fn swapped(self) -> (r: u8)
        ensures
            r == nibble_swap(ws63_code(self)),
    {
        swap_nibbles(self.code())
    }
}

/// Command frame builder.
#[derive(Debug)]
pub struct CommandFrame {
    cmd: Command,
    data: Vec<u8>,
}

impl CommandFrame {
    #[verifier::type_invariant]
    spec fn small(self) -> bool {
        self.data@.len() <= 16
    }

    /// The command of this frame.
    pub closed spec fn kind(self) -> Command {
        self.cmd
    }

    /// The payload of this frame.
    pub closed spec fn payload(self) -> Seq<u8> {
        self.data@
    }

    /// Creates a frame with no payload.
    pub fn new(cmd: Command) -> (r: Self)
        ensures
            r.kind() == cmd,
            r.payload() == Seq::<u8>::empty(),
    {
        CommandFrame { cmd, data: Vec::new() }
    }

    /// Handshake frame: baud rate, then the constant 0x0108.
    pub fn handshake(baud: u32) -> (r: Self)
        ensures
            r.kind() == Command::Handshake,
            r.payload() == le32(baud) + le32(0x0108),
    {
        let mut d: Vec<u8> = Vec::new();
        crate::bytes::put_u32_le(&mut d, baud);
        crate::bytes::put_u32_le(&mut d, 0x0108);
        CommandFrame { cmd: Command::Handshake, data: d }
    }

    /// Set-baud-rate frame: baud rate, then the constant 0x0108.
    pub fn set_baud_rate(baud: u32) -> (r: Self)
        ensures
            r.kind() == Command::SetBaudRate,
            r.payload() == le32(baud) + le32(0x0108),
    {
        let mut d: Vec<u8> = Vec::new();
        crate::bytes::put_u32_le(&mut d, baud);
        crate::bytes::put_u32_le(&mut d, 0x0108);
        CommandFrame { cmd: Command::SetBaudRate, data: d }
    }

    /// Download frame: address, length, erase size, then 0x00 0xFF.
    pub fn download(addr: u32, len: u32, erase_size: u32) -> (r: Self)
        ensures
            r.kind() == Command::Download,
            r.payload() == le32(addr) + le32(len) + le32(erase_size) + seq![0u8, 0xFFu8],
    {
        let mut d: Vec<u8> = Vec::new();
        crate::bytes::put_u32_le(&mut d, addr);
        crate::bytes::put_u32_le(&mut d, len);
        crate::bytes::put_u32_le(&mut d, erase_size);
        d.push(0x00);
        d.push(0xFF);
        assert(d@ =~= le32(addr) + le32(len) + le32(erase_size) + seq![0u8, 0xFFu8]);
        CommandFrame { cmd: Command::Download, data: d }
    }

    /// Erase-all frame: a download of nothing to 0 that erases 0xFFFFFFFF bytes.
    pub fn erase_all() -> (r: Self)
        ensures
            r.kind() == Command::Download,
            r.payload() == le32(0) + le32(0) + le32(0xFFFF_FFFF) + seq![0u8, 0xFFu8],
    {
        Self::download(0, 0, 0xFFFF_FFFF)
    }

    /// Reset frame: two zero bytes.
    pub fn reset() -> (r: Self)
        ensures
            r.kind() == Command::Reset,
            r.payload() == seq![0u8, 0u8],
    {
        let mut d: Vec<u8> = Vec::new();
        d.push(0x00);
        d.push(0x00);
        assert(d@ =~= seq![0u8, 0u8]);
        CommandFrame { cmd: Command::Reset, data: d }
    }

    /// The whole frame: magic, length, CMD, SCMD, payload, CRC16.
    pub fn build(&self) -> (r: Vec<u8>)
        ensures
            r@ == raw_frame(ws63_code(self.kind()), nibble_swap(ws63_code(self.kind())), self.payload()),
    {
        proof {
            use_type_invariant(self);
        }
        assemble_frame(self.cmd.code(), self.cmd.swapped(), self.data.as_slice())
    }

    /// The command of this frame.
    pub fn command(&self) -> (r: Command)
        ensures
            r == self.kind(),
    {
        self.cmd
    }
}

/// Position of the frame that a response parse looks at.
pub open spec fn response_start(s: Seq<u8>) -> int {
    first_magic_from(s, 0)
}

/// Whether a frame header (magic and length) is present and the whole frame
/// that its length field announces has arrived.
pub open spec fn response_complete(s: Seq<u8>) -> bool {
    let p = response_start(s);
    &&& s.len() >= 10
    &&& p >= 0
    &&& s.len() - p >= 10
    &&& s.len() - p >= seq_le16(s, p + 4)
}

/// The command, sub-command and data that a response frame in `s` carries;
/// none when no complete frame arrived, or when its length field is below
/// 10, too short to hold the header and the CRC (no valid frame).
pub open spec fn response_of(s: Seq<u8>) -> Option<(u8, u8, Seq<u8>)> {
    let p = response_start(s);
    if response_complete(s) && seq_le16(s, p + 4) >= 10 {
        Some((s[p + 6], s[p + 7], s.subrange(p + 8, p + seq_le16(s, p + 4) - 2)))
    } else {
        None
    }
}

/// Whether a response frame in `s` is a successful handshake ACK.
pub open spec fn response_accepts(s: Seq<u8>) -> bool {
    match response_of(s) {
        Some((c, _, d)) => c == 0xE1 && d.len() > 0 && d[0] == 0x5A,
        None => false,
    }
}

/// Response frame parser.
#[derive(Debug)]
pub struct ResponseFrame {
    /// Command byte from response.
    pub cmd: u8,
    /// Sub-command byte from response.
    pub scmd: u8,
    /// Response data.
    pub data: Vec<u8>,
}

fn find_magic_at(data: &[u8]) -> (r: Option<usize>)
    ensures
        match r {
            Some(p) => first_magic_from(data@, 0) == p as int && p + 4 <= data@.len(),
            None => first_magic_from(data@, 0) == -1,
        },
{
    let n = data.len();
    if n < 4 {
        return None;
    }
    let mut i: usize = 0;
    while i <= n - 4
        invariant
            n == data@.len(),
            4 <= n,
            i + 3 <= n,
            first_magic_from(data@, 0) == first_magic_from(data@, i as int),
        decreases n - i,
    {
        if data[i] == 0xEF && data[i + 1] == 0xBE && data[i + 2] == 0xAD && data[i + 3] == 0xDE {
            return Some(i);
        }
        i = i + 1;
    }
    None
}

impl ResponseFrame {
    /// Parses a response frame: it starts at the first magic number, its
    /// length field must fit within what arrived and hold at least the
    /// header and the CRC (10 bytes), and its data runs from byte 8 to two
    /// bytes before the announced end. `None` when the data is not a valid
    /// frame.
    pub fn parse(data: &[u8]) -> (r: Option<ResponseFrame>)
        ensures
            match response_of(data@) {
                Some((c, sc, d)) => r matches Some(f) && f.cmd == c && f.scmd == sc && f.data@ == d,
                None => r is None,
            },
    {
        let n = data.len();
        if n < 10 {
            return None;
        }
        let p = match find_magic_at(data) {
            Some(p) => p,
            None => return None,
        };
        if n - p < 10 {
            return None;
        }
        let len = get_u16_le(&data[p + 4..p + 6]) as usize;
        if n - p < len || len < 10 {
            return None;
        }
        let cmd = data[p + 6];
        let scmd = data[p + 7];
        let body = &data[p + 8..p + len - 2];
        let mut out: Vec<u8> = Vec::new();
        let mut i: usize = 0;
        while i < body.len()
            invariant
                i <= body@.len(),
                out@ == body@.subrange(0, i as int),
            decreases body@.len() - i,
        {
            out.push(body[i]);
            i = i + 1;
            assert(out@ =~= body@.subrange(0, i as int));
        }
        assert(out@ =~= body@);
        Some(ResponseFrame { cmd, scmd, data: out })
    }

    /// Whether this is a successful handshake ACK: command 0xE1 and first
    /// data byte 0x5A.
    pub fn is_handshake_ack(&self) -> (r: bool)
        ensures
            r == (self.cmd == 0xE1 && self.data@.len() > 0 && self.data@[0] == 0x5A),
    {
        self.cmd == 0xE1 && self.data.len() > 0 && self.data[0] == 0x5A
    }

    /// Whether the first data byte is 0x5A (ACK).
    pub fn is_ack(&self) -> (r: bool)
        ensures
            r == (self.data@.len() > 0 && self.data@[0] == 0x5A),
    {
        self.data.len() > 0 && self.data[0] == 0x5A
    }
}

/// Whether the 10 bytes of [`HANDSHAKE_ACK`] start at `i`.
pub open spec fn exact_ack_at(s: Seq<u8>, i: int) -> bool {
    &&& 0 <= i
    &&& i + 10 <= s.len()
    &&& s[i] == 0xEF
    &&& s[i + 1] == 0xBE
    &&& s[i + 2] == 0xAD
    &&& s[i + 3] == 0xDE
    &&& s[i + 4] == 0x0C
    &&& s[i + 5] == 0x00
    &&& s[i + 6] == 0xE1
    &&& s[i + 7] == 0x1E
    &&& s[i + 8] == 0x5A
    &&& s[i + 9] == 0x00
}

/// Whether `s` holds [`HANDSHAKE_ACK`] somewhere.
pub open spec fn has_exact_ack(s: Seq<u8>) -> bool {
    exists|i: int| exact_ack_at(s, i)
}

/// The suffix of `s` from `k`.
pub open spec fn suffix(s: Seq<u8>, k: int) -> Seq<u8> {
    s.subrange(k, s.len() as int)
}

/// Whether `s` holds a handshake ACK: the exact bytes, or a suffix that
/// parses as a response with command 0xE1 and first data byte 0x5A.
pub open spec fn ws63_has_ack(s: Seq<u8>) -> bool {
    s.len() >= 10 && (has_exact_ack(s) || exists|k: int|
        0 <= k < s.len() && response_accepts(#[trigger] suffix(s, k)))
}

fn has_exact(data: &[u8]) -> (r: bool)
    ensures
        r == has_exact_ack(data@),
{
    let n = data.len();
    if n < 10 {
        return false;
    }
    let mut i: usize = 0;
    while i <= n - 10
        invariant
            n == data@.len(),
            10 <= n,
            i + 9 <= n,
            forall|j: int| 0 <= j < i ==> !exact_ack_at(data@, j),
        decreases n - i,
    {
        if data[i] == 0xEF && data[i + 1] == 0xBE && data[i + 2] == 0xAD && data[i + 3] == 0xDE
            && data[i + 4] == 0x0C && data[i + 5] == 0x00 && data[i + 6] == 0xE1 && data[i
            + 7] == 0x1E && data[i + 8] == 0x5A && data[i + 9] == 0x00 {
            assert(exact_ack_at(data@, i as int));
            return true;
        }
        i = i + 1;
    }
    assert forall|j: int| !exact_ack_at(data@, j) by {
        if 0 <= j && j + 10 <= n {
            assert(j < i);
        }
    }
    false
}

/// Whether `data` holds a handshake ACK: the exact [`HANDSHAKE_ACK`] bytes,
/// or, scanning every start position, a response frame with command 0xE1
/// whose first data byte is 0x5A (whatever the status byte after it).
pub fn contains_handshake_ack(data: &[u8]) -> (r: bool)
    ensures
        r == ws63_has_ack(data@),
{
    let n = data.len();
    if n < 10 {
        return false;
    }
    if has_exact(data) {
        return true;
    }
    let mut k: usize = 0;
    while k < n
        invariant
            n == data@.len(),
            10 <= n,
            k <= n,
            !has_exact_ack(data@),
            forall|j: int| 0 <= j < k ==> !response_accepts(#[trigger] suffix(data@, j)),
        decreases n - k,
    {
        let tail = &data[k..n];
        assert(tail@ == suffix(data@, k as int));
        match ResponseFrame::parse(tail) {
            Some(f) => {
                if f.is_handshake_ack() {
                    return true;
                }
            },
            None => {},
        }
        k = k + 1;
    }
    false
}


/// A frame reads back as written: parsing a whole frame with type bytes
/// `t`, `t2` and payload `d` gives `t`, `t2` and `d`.
pub proof fn lemma_response_reads_frame(t: u8, t2: u8, d: Seq<u8>)
    requires
        d.len() <= 0xFFF0,
    ensures
        response_of(raw_frame(t, t2, d)) == Some((t, t2, d)),
{
    let f = raw_frame(t, t2, d);
    let len = (10 + d.len()) as u16;
    let m: u32 = crate::seboot::FRAME_MAGIC;
    assert((m & 0xff) as u8 == 0xEF && ((m >> 8) & 0xff) as u8 == 0xBE && ((m >> 16) & 0xff) as u8 == 0xAD && ((m
        >> 24) & 0xff) as u8 == 0xDE) by (bit_vector)
        requires
            m == 0xDEADBEEFu32,
    ;
    assert(magic_at(f, 0));
    assert(first_magic_from(f, 0) == 0);
    lemma_le16_roundtrip(len);
    assert(f[4] == le16(len)[0] && f[5] == le16(len)[1]);
    assert(seq_le16(f, 4) == len);
    assert(f.len() == 10 + d.len());
    assert(f[6] == t && f[7] == t2);
    assert(f.subrange(8, 8 + d.len() as int) =~= d);
}

/// Every WS63 command frame starts with the magic EF BE AD DE and carries
/// at bytes 6 and 7 its command's fixed byte and that byte with its nibbles
/// exchanged: F0 0F for the handshake, 5A A5 for a baud rate change, D2 2D
/// for a download and 87 78 for a reset, whatever the payload. No two
/// commands share a command byte.
pub proof fn lemma_ws63_command_bytes(c: Command, d: Seq<u8>)
    ensures
        ({
            let f = raw_frame(ws63_code(c), nibble_swap(ws63_code(c)), d);
            &&& f.len() == d.len() + 10
            &&& f[0] == 0xEF && f[1] == 0xBE && f[2] == 0xAD && f[3] == 0xDE
            &&& f[6] == match c {
                Command::Handshake => 0xF0u8,
                Command::SetBaudRate => 0x5Au8,
                Command::Download => 0xD2u8,
                Command::Reset => 0x87u8,
            }
            &&& f[7] == match c {
                Command::Handshake => 0x0Fu8,
                Command::SetBaudRate => 0xA5u8,
                Command::Download => 0x2Du8,
                Command::Reset => 0x78u8,
            }
        }),
        forall|other: Command| ws63_code(other) == ws63_code(c) ==> other == c,
{
    let t = ws63_code(c);
    let t2 = nibble_swap(t);
    let f = raw_frame(t, t2, d);
    let m: u32 = crate::seboot::FRAME_MAGIC;
    assert((m & 0xff) as u8 == 0xEF && ((m >> 8) & 0xff) as u8 == 0xBE && ((m >> 16) & 0xff) as u8 == 0xAD && ((m
        >> 24) & 0xff) as u8 == 0xDE) by (bit_vector)
        requires
            m == 0xDEADBEEFu32,
    ;
    assert(f[6] == t && f[7] == t2);
    assert(((0xF0u8 >> 4u8) | (0xF0u8 << 4u8)) as u8 == 0x0Fu8 && ((0x5Au8 >> 4u8) | (0x5Au8 << 4u8)) as u8 == 0xA5u8
        && ((0xD2u8 >> 4u8) | (0xD2u8 << 4u8)) as u8 == 0x2Du8 && ((0x87u8 >> 4u8) | (0x87u8 << 4u8)) as u8 == 0x78u8)
        by (bit_vector);
}

} // verus!
