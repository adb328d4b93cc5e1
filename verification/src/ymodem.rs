//! YMODEM-1K file transfer, as the HiSilicon boot loaders receive firmware.
//!
//! ```text
//! +-----+-----+------+---------------+--------+
//! | STX | SEQ | ~SEQ |   DATA (1024) | CRC16  |
//! +-----+-----+------+---------------+--------+
//! ```
//!
//! The transfer is a [`YmodemTransfer`] session: a state machine that is told
//! what happened (bytes written, bytes received, the time, whether the user
//! cancelled) and answers with the next thing to do. Whoever owns the serial
//! port runs the loop that performs those actions.
use crate::crc::{crc16_spec, crc16_xmodem};
use crate::error::{Error, IoError, IoErrorKind};
use crate::text::{bytes_contain, dec_text, hex_text, push_dec, push_hex, seq_contains_seq};
use vstd::prelude::*;
use vstd::string::StringSliceAdditionalSpecFns;
use vstd::arithmetic::power2::{lemma_pow2_pos, pow2};
use vstd::bits::lemma_u64_shr_is_div;

verus! {

/// Start of Header (128-byte block).
pub const SOH: u8 = 0x01;

/// Start of Text (1024-byte block).
pub const STX: u8 = 0x02;

/// End of Transmission.
pub const EOT: u8 = 0x04;

/// Acknowledge.
pub const ACK: u8 = 0x06;

/// Not Acknowledge.
pub const NAK: u8 = 0x15;

/// Cancel.
pub const CAN: u8 = 0x18;

/// CRC mode request character.
pub const CRC_REQUEST: u8 = 0x43;

/// Block size for SOH packets.
pub const SOH_BLOCK_SIZE: usize = 128;

/// Block size for STX packets (YMODEM-1K).
pub const STX_BLOCK_SIZE: usize = 1024;

/// How long a lone 'C' must stand unanswered by an ACK before it is taken
/// as a request to send the block again (milliseconds).
pub const RETRY_REQUEST_GRACE_MS: u64 = 300;

/// How long to wait for the 'C' after the EOT when the finish block is only
/// sent on request (milliseconds).
pub const POST_EOT_C_TIMEOUT_MS: u64 = 2500;

/// How long an ACK of the EOT must stand alone before the session ends
/// without waiting for a 'C' (milliseconds).
pub const EOT_ACK_SETTLE_MS: u64 = 300;

/// The most bytes one read asks for.
pub const READ_CHUNK: usize = 64;

/// The bytes a SEBOOT frame starts with.
pub open spec fn seboot_magic() -> Seq<u8> {
    seq![0xEFu8, 0xBEu8, 0xADu8, 0xDEu8]
}

/// The payload of a block: the data cut or zero padded to `size` bytes.
pub open spec fn block_payload(data: Seq<u8>, size: nat) -> Seq<u8> {
    if data.len() >= size {
        data.subrange(0, size as int)
    } else {
        data + Seq::new((size - data.len()) as nat, |i: int| 0u8)
    }
}

/// A YMODEM block: header byte, sequence number and its complement, the
/// payload (1024 bytes after STX, 128 after SOH) and its CRC16, high byte
/// first.
pub open spec fn block_bytes(seq: u8, data: Seq<u8>, use_stx: bool) -> Seq<u8> {
    let size: nat = if use_stx { 1024 } else { 128 };
    let payload = block_payload(data, size);
    let crc = crc16_spec(payload);
    seq![if use_stx { STX } else { SOH }, seq, !seq] + payload + seq![(crc >> 8u16) as u8, (crc & 0xFFu16) as u8]
}

/// Builds a YMODEM block with sequence number `seq` around `data`.
pub fn build_block(seq: u8, data: &[u8], use_stx: bool) -> (r: Vec<u8>)
    ensures
        r@ == block_bytes(seq, data@, use_stx),
{
    let block_size = if use_stx { STX_BLOCK_SIZE } else { SOH_BLOCK_SIZE };
    let header = if use_stx { STX } else { SOH };
    let mut payload: Vec<u8> = Vec::new();
    let n = if data.len() >= block_size { block_size } else { data.len() };
    let mut i: usize = 0;
    while i < n
        invariant
            i <= n,
            n <= data@.len(),
            n <= block_size,
            payload@ == data@.subrange(0, i as int),
        decreases n - i,
    {
        payload.push(data[i]);
        i = i + 1;
        assert(payload@ =~= data@.subrange(0, i as int));
    }
    while payload.len() < block_size
        invariant
            n <= payload@.len() <= block_size,
            n <= data@.len(),
            n == (if data@.len() >= block_size { block_size } else { data@.len() as usize }),
            forall|j: int| 0 <= j < n ==> payload@[j] == data@[j],
            forall|j: int| n <= j < payload@.len() ==> payload@[j] == 0u8,
        decreases block_size - payload@.len(),
    {
        payload.push(0u8);
    }
    assert(payload@ =~= block_payload(data@, block_size as nat)) by {
        if data@.len() < block_size {
            assert forall|j: int| 0 <= j < block_size implies payload@[j] == block_payload(data@, block_size as nat)[j] by {
                if j >= n {
                    assert(block_payload(data@, block_size as nat)[j] == 0u8);
                }
            }
        }
    }
    let crc = crc16_xmodem(payload.as_slice());
    let mut block: Vec<u8> = Vec::new();
    block.push(header);
    block.push(seq);
    block.push(!seq);
    let mut k: usize = 0;
    while k < payload.len()
        invariant
            k <= payload@.len(),
            block@ == seq![header, seq, !seq] + payload@.subrange(0, k as int),
        decreases payload@.len() - k,
    {
        block.push(payload[k]);
        k = k + 1;
        assert(block@ =~= seq![header, seq, !seq] + payload@.subrange(0, k as int));
    }
    block.push((crc >> 8u16) as u8);
    block.push((crc & 0xFFu16) as u8);
    assert(payload@.subrange(0, payload@.len() as int) =~= payload@);
    assert(block@ =~= block_bytes(seq, data@, use_stx));
    block
}

/// The decimal digits of `v` as ASCII bytes.
pub open spec fn dec_bytes(v: nat) -> Seq<u8>
    decreases v,
{
    if v < 10 {
        seq![(48 + v) as u8]
    } else {
        dec_bytes(v / 10).push((48 + v % 10) as u8)
    }
}

fn push_dec_bytes(out: &mut Vec<u8>, v: usize)
    ensures
        final(out)@ == old(out)@ + dec_bytes(v as nat),
{
    let mut digits: Vec<u8> = Vec::new();
    let mut x = v;
    while x >= 10
        invariant
            dec_bytes(v as nat) == dec_bytes(x as nat) + digits@,
        decreases x,
    {
        let d = (48 + x % 10) as u8;
        let ghost old_digits = digits@;
        digits.insert(0, d);
        assert(digits@ =~= seq![d] + old_digits);
        assert(dec_bytes(x as nat) =~= dec_bytes((x / 10) as nat).push(d));
        assert(dec_bytes((x / 10) as nat).push(d) + old_digits =~= dec_bytes((x / 10) as nat) + digits@);
        x = x / 10;
    }
    let d = (48 + x) as u8;
    let ghost old_digits = digits@;
    digits.insert(0, d);
    assert(dec_bytes(x as nat) =~= seq![d]);
    assert(digits@ =~= seq![d] + old_digits);
    let ghost start = out@;
    let mut i: usize = 0;
    while i < digits.len()
        invariant
            i <= digits@.len(),
            digits@ == dec_bytes(v as nat),
            out@ == start + digits@.subrange(0, i as int),
        decreases digits@.len() - i,
    {
        out.push(digits[i]);
        i = i + 1;
        assert(out@ =~= start + digits@.subrange(0, i as int));
    }
    assert(digits@.subrange(0, digits@.len() as int) =~= digits@);
}

/// The data of block 0: the file name, a NUL, the size in decimal, a NUL.
pub open spec fn file_info_data(filename: Seq<u8>, size: nat) -> Seq<u8> {
    filename + seq![0u8] + dec_bytes(size) + seq![0u8]
}

fn file_info_block(name: &[u8], size: usize) -> (r: Vec<u8>)
    ensures
        r@ == block_bytes(0, file_info_data(name@, size as nat), false),
{
    let mut data: Vec<u8> = Vec::new();
    let mut i: usize = 0;
    while i < name.len()
        invariant
            i <= name@.len(),
            data@ == name@.subrange(0, i as int),
        decreases name@.len() - i,
    {
        data.push(name[i]);
        i = i + 1;
        assert(data@ =~= name@.subrange(0, i as int));
    }
    assert(name@.subrange(0, name@.len() as int) =~= name@);
    data.push(0u8);
    push_dec_bytes(&mut data, size);
    data.push(0u8);
    assert(data@ =~= file_info_data(name@, size as nat));
    build_block(0, data.as_slice(), false)
}

/// YMODEM configuration options.
#[derive(Debug, Clone)]
pub struct YmodemConfig {
    /// Timeout for waiting for a character, in milliseconds.
    pub char_timeout_ms: u64,
    /// Timeout for waiting for the 'C' character, in milliseconds.
    pub c_timeout_ms: u64,
    /// Maximum number of times a block is sent.
    pub max_retries: u32,
    /// Whether to send the finish block even if EOT is ACKed without a
    /// trailing 'C' request.
    pub finish_without_c: bool,
    /// Verbose output level.
    pub verbose: u8,
}

impl Default for YmodemConfig {
    /// One second per character, a minute for the first 'C', ten tries per
    /// block, the finish block always sent.
    fn default() -> (r: YmodemConfig)
        ensures
            r.char_timeout_ms == 1000,
            r.c_timeout_ms == 60000,
            r.max_retries == 10,
            r.finish_without_c,
            r.verbose == 0,
    {
        YmodemConfig {
            char_timeout_ms: 1000,
            c_timeout_ms: 60000,
            max_retries: 10,
            finish_without_c: true,
            verbose: 0,
        }
    }
}


/// Whether the byte `b` occurs in `s`.
fn has_byte(s: &[u8], b: u8) -> (r: bool)
    ensures
        r == s@.contains(b),
{
    let mut i: usize = 0;
    while i < s.len()
        invariant
            i <= s@.len(),
            forall|j: int| 0 <= j < i ==> s@[j] != b,
        decreases s@.len() - i,
    {
        if s[i] == b {
            return true;
        }
        i = i + 1;
    }
    false
}

/// Whether every byte of `s` is the 'C' request.
pub open spec fn all_requests(s: Seq<u8>) -> bool {
    forall|j: int| 0 <= j < s.len() ==> s[j] == CRC_REQUEST
}

/// Whether every byte of `s` is one of the control bytes ACK, NAK, CAN, 'C'.
pub open spec fn all_control(s: Seq<u8>) -> bool {
    forall|j: int| 0 <= j < s.len() ==> (s[j] == ACK || s[j] == NAK || s[j] == CAN || s[j] == CRC_REQUEST)
}

fn only_requests(s: &[u8]) -> (r: bool)
    ensures
        r == all_requests(s@),
{
    let mut i: usize = 0;
    while i < s.len()
        invariant
            i <= s@.len(),
            forall|j: int| 0 <= j < i ==> s@[j] == CRC_REQUEST,
        decreases s@.len() - i,
    {
        if s[i] != CRC_REQUEST {
            return false;
        }
        i = i + 1;
    }
    true
}

fn only_control(s: &[u8]) -> (r: bool)
    ensures
        r == all_control(s@),
{
    let mut i: usize = 0;
    while i < s.len()
        invariant
            i <= s@.len(),
            forall|j: int| 0 <= j < i ==> (s@[j] == ACK || s@[j] == NAK || s@[j] == CAN || s@[j] == CRC_REQUEST),
        decreases s@.len() - i,
    {
        let b = s[i];
        if !(b == ACK || b == NAK || b == CAN || b == CRC_REQUEST) {
            return false;
        }
        i = i + 1;
    }
    true
}

/// The first position at or after `i` where `b` occurs in `s`, or the length.
pub open spec fn first_pos(s: Seq<u8>, b: u8, i: int) -> int
    decreases s.len() - i,
{
    if i >= s.len() || i < 0 {
        s.len() as int
    } else if s[i] == b {
        i
    } else {
        first_pos(s, b, i + 1)
    }
}

proof fn lemma_first_pos(s: Seq<u8>, b: u8, i: int)
    requires
        0 <= i <= s.len(),
    ensures
        i <= first_pos(s, b, i) <= s.len(),
        first_pos(s, b, i) < s.len() ==> s[first_pos(s, b, i)] == b,
        forall|j: int| i <= j < first_pos(s, b, i) ==> s[j] != b,
    decreases s.len() - i,
{
    if i < s.len() && s[i] != b {
        lemma_first_pos(s, b, i + 1);
    }
}

fn position_of(s: &[u8], b: u8) -> (r: usize)
    ensures
        r == first_pos(s@, b, 0),
{
    let mut i: usize = 0;
    while i < s.len()
        invariant
            i <= s@.len(),
            first_pos(s@, b, 0) == first_pos(s@, b, i as int),
        decreases s@.len() - i,
    {
        if s[i] == b {
            return i;
        }
        i = i + 1;
    }
    i
}

fn append_bytes(out: &mut Vec<u8>, s: &[u8], lo: usize, hi: usize)
    requires
        lo <= hi <= s@.len(),
    ensures
        final(out)@ == old(out)@ + s@.subrange(lo as int, hi as int),
{
    let ghost start = out@;
    let mut i = lo;
    while i < hi
        invariant
            lo <= i <= hi,
            hi <= s@.len(),
            out@ == start + s@.subrange(lo as int, i as int),
        decreases hi - i,
    {
        out.push(s[i]);
        i = i + 1;
        assert(out@ =~= start + s@.subrange(lo as int, i as int));
    }
}

/// `a + b`, or `u64::MAX` where that overflows.
pub open spec fn sat_add(a: u64, b: u64) -> u64 {
    if a + b > u64::MAX {
        u64::MAX
    } else {
        (a + b) as u64
    }
}

/// How many data blocks a file of `total` bytes takes.
pub open spec fn n_blocks(total: nat) -> nat {
    total / 1024 + if total % 1024 == 0 { 0nat } else { 1nat }
}

/// Where data block `k` (counted from 1) ends in the file.
pub open spec fn chunk_end(total: nat, k: nat) -> nat {
    if k * 1024 <= total {
        k * 1024
    } else {
        total
    }
}

/// The part of the file that data block `k` (counted from 1) carries.
pub open spec fn data_chunk(data: Seq<u8>, k: nat) -> Seq<u8> {
    data.subrange((k - 1) * 1024, chunk_end(data.len(), k) as int)
}

/// Where a session stands.
#[derive(Debug, Clone, Copy, PartialEq, Eq, Structural)]
pub enum Stage {
    /// Nothing under way.
    Idle,
    /// A transfer was begun; nothing done yet.
    Start,
    /// Waiting for the receiver's first 'C'.
    WaitC { deadline: u64 },
    /// About to send block `index` (0 is the file information).
    BlockHead { index: usize, attempt: u32 },
    /// Block `index` was handed over for writing.
    BlockSent { index: usize, attempt: u32 },
    /// Waiting for the answer to block `index`.
    BlockWait { index: usize, attempt: u32, deadline: u64, retry_seen: bool, retry_seen_at: u64 },
    /// About to send the EOT.
    EotHead { attempt: u32 },
    /// The EOT was handed over for writing.
    EotSent { attempt: u32 },
    /// Waiting for the answer to the EOT.
    EotWait { attempt: u32, deadline: u64, saw_ack: bool, ack_seen: bool, ack_seen_at: u64 },
    /// About to close the session on its own (see
    /// [`YmodemTransfer::begin_finish`]).
    FinishStart,
    /// The finish block was handed over for writing.
    FinishSent { attempt: u32 },
    /// Waiting for the answer to the finish block.
    FinishWait { attempt: u32, deadline: u64 },
}

/// How a session ended, as the contracts see it.
pub enum Outcome {
    /// The transfer completed.
    Success,
    /// An I/O failure of the given kind (cancellation is `Interrupted`).
    IoFailure(IoErrorKind),
    /// The receiver cancelled, a block was refused too often, or the first
    /// 'C' never came.
    TransferFailure,
    /// The wait for the first 'C' ran out (a session that only waits, see
    /// [`YmodemTransfer::begin_wait_for_c`]).
    TimedOut,
    /// The session was driven against its protocol.
    Misuse,
}

/// What the session asks for, as the contracts see it.
pub enum ActionSpec {
    /// Write (and flush) these bytes.
    Write(Seq<u8>),
    /// Read what arrived.
    Read,
    /// Report progress: bytes sent so far, of the total.
    Progress(usize, usize),
    /// The session is over.
    Finished(Outcome),
}

/// What happened, as the contracts see it.
pub enum EventSpec {
    /// Nothing to report: the session just began, or progress was reported.
    Ready,
    /// The write finished: without error, or with an error of this kind.
    Written(Option<IoErrorKind>),
    /// These bytes arrived (perhaps none).
    Received(Seq<u8>),
    /// The read failed with an error of this kind.
    ReadFailed(IoErrorKind),
}

/// The state of a session: its stage, the bytes kept while waiting for the
/// answer to the EOT or finish block, and those handed on to the caller.
pub struct Model {
    /// The stage.
    pub stage: Stage,
    /// Bytes received after the EOT or finish block, not yet handed on.
    pub transition: Seq<u8>,
    /// Bytes that followed the transfer, for the caller.
    pub trailing: Seq<u8>,
}

/// The fixed parameters of a session.
pub struct Cfg {
    /// Timeout for one answer, in milliseconds.
    pub char_ms: u64,
    /// Timeout for the first 'C', in milliseconds.
    pub c_ms: u64,
    /// How often a block is sent at most.
    pub max_retries: u32,
    /// Whether the finish block is sent without a request.
    pub finish_without_c: bool,
    /// The file name's bytes.
    pub filename: Seq<u8>,
    /// The file name's text, as errors report it.
    pub name: Seq<char>,
    /// The file size.
    pub total: usize,
    /// Whether the session only closes a transfer (see
    /// [`YmodemTransfer::begin_finish`]): then a failure around the finish
    /// block is its result; at the end of a transfer it is not.
    pub finish_alone: bool,
    /// Whether the session only waits for the receiver's first 'C' (see
    /// [`YmodemTransfer::begin_wait_for_c`]).
    pub wait_alone: bool,
}

/// The parameters of a session that has not begun a transfer yet.
pub open spec fn fresh_cfg(char_ms: u64, c_ms: u64, max_retries: u32, finish_without_c: bool) -> Cfg {
    Cfg {
        char_ms,
        c_ms,
        max_retries,
        finish_without_c,
        filename: Seq::empty(),
        name: Seq::empty(),
        total: 0,
        finish_alone: false,
        wait_alone: false,
    }
}

/// The state of a session that has not begun a transfer yet.
pub open spec fn fresh_model() -> Model {
    Model { stage: Stage::Idle, transition: Seq::empty(), trailing: Seq::empty() }
}

/// The stage changed, nothing else.
pub open spec fn at(m: Model, st: Stage) -> Model {
    Model { stage: st, ..m }
}

/// The session ends with the given outcome.
pub open spec fn done(m: Model, o: Outcome) -> (Model, ActionSpec) {
    (at(m, Stage::Idle), ActionSpec::Finished(o))
}

/// The bytes of block `index`: the file information for 0, else data block
/// `index` with sequence number `index` modulo 256.
pub open spec fn block_of(c: Cfg, data: Seq<u8>, index: nat) -> Seq<u8> {
    if index == 0 {
        block_bytes(0, file_info_data(c.filename, c.total as nat), false)
    } else {
        block_bytes((index % 256) as u8, data_chunk(data, index), true)
    }
}

/// The finish block: an empty block 0.
pub open spec fn finish_block() -> Seq<u8> {
    block_bytes(0, Seq::empty(), false)
}

/// How long to wait for the answer to the EOT.
pub open spec fn eot_wait_ms(c: Cfg) -> u64 {
    if c.finish_without_c || c.char_ms >= POST_EOT_C_TIMEOUT_MS {
        c.char_ms
    } else {
        POST_EOT_C_TIMEOUT_MS
    }
}

/// The finish block failed with outcome `o`: the session's result when it
/// only closes a transfer, else the transfer still succeeded.
pub open spec fn finish_end(c: Cfg, m: Model, o: Outcome) -> (Model, ActionSpec) {
    if c.finish_alone {
        done(m, o)
    } else {
        done(m, Outcome::Success)
    }
}

/// About to send the finish block, try `attempt`.
pub open spec fn finish_head(c: Cfg, m: Model, cancelled: bool, attempt: u32) -> (Model, ActionSpec) {
    if attempt >= c.max_retries {
        finish_end(c, m, Outcome::TransferFailure)
    } else if cancelled {
        finish_end(c, m, Outcome::IoFailure(IoErrorKind::Interrupted))
    } else {
        (at(m, Stage::FinishSent { attempt }), ActionSpec::Write(finish_block()))
    }
}

/// Waiting for the answer to the finish block.
pub open spec fn finish_wait_head(c: Cfg, m: Model, now: u64, cancelled: bool, attempt: u32, deadline: u64) -> (Model, ActionSpec) {
    if now >= deadline {
        finish_head(c, m, cancelled, (attempt + 1) as u32)
    } else if cancelled {
        finish_end(c, m, Outcome::IoFailure(IoErrorKind::Interrupted))
    } else {
        (at(m, Stage::FinishWait { attempt, deadline }), ActionSpec::Read)
    }
}

/// The EOT was answered: send the finish block if it was asked for or is
/// always sent, else end.
pub open spec fn after_eot(c: Cfg, m: Model, cancelled: bool, requested: bool) -> (Model, ActionSpec) {
    if requested || c.finish_without_c {
        finish_head(c, m, cancelled, 0)
    } else {
        done(m, Outcome::Success)
    }
}

/// About to send the EOT, try `attempt`; after the last try the EOT counts
/// as sent.
pub open spec fn eot_head(c: Cfg, m: Model, cancelled: bool, attempt: u32) -> (Model, ActionSpec) {
    if attempt >= c.max_retries {
        after_eot(c, m, cancelled, false)
    } else if cancelled {
        done(m, Outcome::IoFailure(IoErrorKind::Interrupted))
    } else {
        (at(m, Stage::EotSent { attempt }), ActionSpec::Write(seq![EOT]))
    }
}

/// The wait for the answer to the EOT ended without a decision.
pub open spec fn eot_break(c: Cfg, m: Model, cancelled: bool, attempt: u32, saw_ack: bool) -> (Model, ActionSpec) {
    if saw_ack {
        after_eot(c, Model { trailing: m.trailing + m.transition, ..m }, cancelled, false)
    } else {
        eot_head(c, m, cancelled, (attempt + 1) as u32)
    }
}

/// Waiting for the answer to the EOT.
pub open spec fn eot_wait_head(
    c: Cfg,
    m: Model,
    now: u64,
    cancelled: bool,
    attempt: u32,
    deadline: u64,
    saw_ack: bool,
    ack_seen: bool,
    ack_seen_at: u64,
) -> (Model, ActionSpec) {
    if cancelled {
        done(m, Outcome::IoFailure(IoErrorKind::Interrupted))
    } else if c.finish_without_c && ack_seen && now >= ack_seen_at + EOT_ACK_SETTLE_MS {
        after_eot(c, m, cancelled, false)
    } else if now >= deadline {
        eot_break(c, m, cancelled, attempt, saw_ack)
    } else {
        (at(m, Stage::EotWait { attempt, deadline, saw_ack, ack_seen, ack_seen_at }), ActionSpec::Read)
    }
}

/// About to send block `index`, try `attempt`.
pub open spec fn block_head(c: Cfg, m: Model, data: Seq<u8>, cancelled: bool, index: usize, attempt: u32) -> (Model, ActionSpec) {
    if attempt >= c.max_retries {
        done(m, Outcome::TransferFailure)
    } else if cancelled {
        done(m, Outcome::IoFailure(IoErrorKind::Interrupted))
    } else {
        (at(m, Stage::BlockSent { index, attempt }), ActionSpec::Write(block_of(c, data, index as nat)))
    }
}

/// Waiting for the answer to block `index`; a lone 'C' that stood for the
/// grace period asks for the block again.
pub open spec fn block_wait_head(
    c: Cfg,
    m: Model,
    data: Seq<u8>,
    now: u64,
    cancelled: bool,
    index: usize,
    attempt: u32,
    deadline: u64,
    retry_seen: bool,
    retry_seen_at: u64,
) -> (Model, ActionSpec) {
    if now >= deadline {
        block_head(c, m, data, cancelled, index, (attempt + 1) as u32)
    } else if cancelled {
        done(m, Outcome::IoFailure(IoErrorKind::Interrupted))
    } else if retry_seen && now >= retry_seen_at + RETRY_REQUEST_GRACE_MS {
        block_head(c, m, data, cancelled, index, (attempt + 1) as u32)
    } else {
        (at(m, Stage::BlockWait { index, attempt, deadline, retry_seen, retry_seen_at }), ActionSpec::Read)
    }
}

/// Block `index` was acknowledged: block 0 leads straight to the first data
/// block (or the EOT), a data block is reported as progress first.
pub open spec fn block_acked(c: Cfg, m: Model, data: Seq<u8>, cancelled: bool, index: usize) -> (Model, ActionSpec) {
    if index == 0 {
        if n_blocks(c.total as nat) == 0 {
            eot_head(c, m, cancelled, 0)
        } else {
            block_head(c, m, data, cancelled, 1, 0)
        }
    } else {
        (
            at(m, if index < n_blocks(c.total as nat) { Stage::BlockHead { index: (index + 1) as usize, attempt: 0 } } else { Stage::EotHead { attempt: 0 } }),
            ActionSpec::Progress(chunk_end(c.total as nat, index as nat) as usize, c.total),
        )
    }
}

/// Waiting for the first 'C'.
pub open spec fn waitc_head(c: Cfg, m: Model, now: u64, cancelled: bool, deadline: u64) -> (Model, ActionSpec) {
    if now >= deadline {
        done(m, if c.wait_alone { Outcome::TimedOut } else { Outcome::TransferFailure })
    } else if cancelled {
        done(m, Outcome::IoFailure(IoErrorKind::Interrupted))
    } else {
        (at(m, Stage::WaitC { deadline }), ActionSpec::Read)
    }
}

/// What a session does with an event: its next state and its next action.
pub open spec fn step_spec(c: Cfg, m: Model, data: Seq<u8>, now: u64, cancelled: bool, ev: EventSpec) -> (Model, ActionSpec) {
    if data.len() != c.total {
        done(m, Outcome::Misuse)
    } else {
        match (m.stage, ev) {
            (Stage::Start, EventSpec::Ready) => {
                if cancelled {
                    done(m, Outcome::IoFailure(IoErrorKind::Interrupted))
                } else {
                    waitc_head(c, m, now, cancelled, sat_add(now, c.c_ms))
                }
            },
            (Stage::BlockHead { index, attempt }, EventSpec::Ready) => block_head(c, m, data, cancelled, index, attempt),
            (Stage::EotHead { attempt }, EventSpec::Ready) => eot_head(c, m, cancelled, attempt),
            (Stage::FinishStart, EventSpec::Ready) => finish_head(c, m, cancelled, 0),
            (Stage::WaitC { deadline }, EventSpec::Received(chunk)) => {
                if chunk.contains(CRC_REQUEST) {
                    if c.wait_alone {
                        done(m, Outcome::Success)
                    } else {
                        block_head(c, m, data, cancelled, 0, 0)
                    }
                } else {
                    waitc_head(c, m, now, cancelled, deadline)
                }
            },
            (Stage::WaitC { deadline }, EventSpec::ReadFailed(k)) => {
                if k == IoErrorKind::TimedOut {
                    waitc_head(c, m, now, cancelled, deadline)
                } else {
                    done(m, Outcome::IoFailure(k))
                }
            },
            (Stage::BlockSent { index, attempt }, EventSpec::Written(w)) => {
                match w {
                    None => block_wait_head(c, m, data, now, cancelled, index, attempt, sat_add(now, c.char_ms), false, 0),
                    Some(k) => done(m, Outcome::IoFailure(k)),
                }
            },
            (Stage::BlockWait { index, attempt, deadline, retry_seen, retry_seen_at }, EventSpec::Received(chunk)) => {
                if chunk.len() == 0 {
                    block_wait_head(c, m, data, now, cancelled, index, attempt, deadline, retry_seen, retry_seen_at)
                } else if chunk.contains(ACK) {
                    block_acked(c, m, data, cancelled, index)
                } else if chunk.contains(NAK) {
                    block_head(c, m, data, cancelled, index, (attempt + 1) as u32)
                } else if chunk.contains(CAN) {
                    done(m, Outcome::TransferFailure)
                } else if all_requests(chunk) {
                    block_wait_head(c, m, data, now, cancelled, index, attempt, deadline, true, if retry_seen { retry_seen_at } else { now })
                } else {
                    block_wait_head(c, m, data, now, cancelled, index, attempt, deadline, retry_seen, retry_seen_at)
                }
            },
            (Stage::BlockWait { index, attempt, deadline, retry_seen, retry_seen_at }, EventSpec::ReadFailed(k)) => {
                if k == IoErrorKind::TimedOut {
                    block_wait_head(c, m, data, now, cancelled, index, attempt, deadline, retry_seen, retry_seen_at)
                } else {
                    done(m, Outcome::IoFailure(k))
                }
            },
            (Stage::EotSent { attempt }, EventSpec::Written(w)) => {
                match w {
                    None => eot_wait_head(c, Model { transition: Seq::empty(), ..m }, now, cancelled, attempt, sat_add(now, eot_wait_ms(c)), false, false, 0),
                    Some(k) => done(m, Outcome::IoFailure(k)),
                }
            },
            (Stage::EotWait { attempt, deadline, saw_ack, ack_seen, ack_seen_at }, EventSpec::Received(chunk)) => {
                if chunk.len() == 0 {
                    eot_wait_head(c, m, now, cancelled, attempt, deadline, saw_ack, ack_seen, ack_seen_at)
                } else if chunk.contains(CAN) {
                    done(m, Outcome::TransferFailure)
                } else if chunk.contains(NAK) {
                    eot_break(c, m, cancelled, attempt, saw_ack)
                } else if chunk.contains(CRC_REQUEST) && (saw_ack || chunk.contains(ACK)) {
                    after_eot(c, m, cancelled, true)
                } else {
                    let saw2 = saw_ack || chunk.contains(ACK);
                    let seen2 = if chunk.contains(ACK) { true } else { ack_seen };
                    let at2 = if chunk.contains(ACK) { now } else { ack_seen_at };
                    if !all_control(chunk) {
                        let tr = m.transition + chunk;
                        if seq_contains_seq(tr, seboot_magic()) {
                            after_eot(c, Model { transition: tr, trailing: m.trailing + tr, ..m }, cancelled, false)
                        } else {
                            eot_wait_head(c, Model { transition: tr, ..m }, now, cancelled, attempt, deadline, saw2, seen2, at2)
                        }
                    } else {
                        eot_wait_head(c, m, now, cancelled, attempt, deadline, saw2, seen2, at2)
                    }
                }
            },
            (Stage::EotWait { attempt, deadline, saw_ack, ack_seen, ack_seen_at }, EventSpec::ReadFailed(k)) => {
                if k == IoErrorKind::TimedOut {
                    if saw_ack && c.finish_without_c {
                        after_eot(c, m, cancelled, false)
                    } else {
                        eot_wait_head(c, m, now, cancelled, attempt, deadline, saw_ack, ack_seen, ack_seen_at)
                    }
                } else {
                    done(m, Outcome::IoFailure(k))
                }
            },
            (Stage::FinishSent { attempt }, EventSpec::Written(w)) => {
                match w {
                    None => finish_wait_head(c, Model { transition: Seq::empty(), ..m }, now, cancelled, attempt, sat_add(now, c.char_ms)),
                    Some(k) => finish_end(c, m, Outcome::IoFailure(k)),
                }
            },
            (Stage::FinishWait { attempt, deadline }, EventSpec::Received(chunk)) => {
                if chunk.len() == 0 {
                    finish_wait_head(c, m, now, cancelled, attempt, deadline)
                } else if chunk.contains(CAN) {
                    finish_end(c, m, Outcome::TransferFailure)
                } else if chunk.contains(NAK) {
                    finish_head(c, m, cancelled, (attempt + 1) as u32)
                } else if chunk.contains(ACK) {
                    let i = first_pos(chunk, ACK, 0);
                    done(
                        Model { trailing: m.trailing + m.transition + chunk.subrange(0, i) + chunk.subrange(i + 1, chunk.len() as int), ..m },
                        Outcome::Success,
                    )
                } else {
                    finish_wait_head(c, Model { transition: m.transition + chunk, ..m }, now, cancelled, attempt, deadline)
                }
            },
            (Stage::FinishWait { attempt, deadline }, EventSpec::ReadFailed(k)) => {
                if k == IoErrorKind::TimedOut {
                    finish_wait_head(c, m, now, cancelled, attempt, deadline)
                } else {
                    finish_end(c, m, Outcome::IoFailure(k))
                }
            },
            _ => done(m, Outcome::Misuse),
        }
    }
}

/// What happened since the session's last action.
#[derive(Debug)]
pub enum YmodemEvent {
    /// Nothing to report: the transfer was just begun, or progress was
    /// reported.
    Ready,
    /// The outcome of the last write (and flush).
    Written(Result<(), IoError>),
    /// The outcome of the last read: the bytes that arrived (perhaps none),
    /// or the error.
    Received(Result<Vec<u8>, IoError>),
}

/// What the session asks its driver to do next.
#[derive(Debug)]
pub enum YmodemAction {
    /// Write and flush these bytes, then report `Written`.
    Write(Vec<u8>),
    /// Read at most [`READ_CHUNK`] bytes (take them from
    /// [`YmodemTransfer::next_input`] first), then report `Received`.
    Read,
    /// Tell the user how far the transfer is, then report `Ready`.
    Progress {
        /// Bytes sent and acknowledged so far.
        current: usize,
        /// Bytes in all.
        total: usize,
    },
    /// The session is over.
    Finished(Result<(), Error>),
}

/// How a finished session's result reads in the contracts.
pub open spec fn outcome_of(r: Result<(), Error>) -> Outcome {
    match r {
        Ok(()) => Outcome::Success,
        Err(Error::Io(e)) => Outcome::IoFailure(e.kind),
        Err(Error::Ymodem(_)) => Outcome::TransferFailure,
        Err(Error::Timeout(_)) => Outcome::TimedOut,
        Err(_) => Outcome::Misuse,
    }
}

/// How an action reads in the contracts.
pub open spec fn action_spec(a: YmodemAction) -> ActionSpec {
    match a {
        YmodemAction::Write(v) => ActionSpec::Write(v@),
        YmodemAction::Read => ActionSpec::Read,
        YmodemAction::Progress { current, total } => ActionSpec::Progress(current, total),
        YmodemAction::Finished(r) => ActionSpec::Finished(outcome_of(r)),
    }
}

/// How an event reads in the contracts.
pub open spec fn event_spec(e: YmodemEvent) -> EventSpec {
    match e {
        YmodemEvent::Ready => EventSpec::Ready,
        YmodemEvent::Written(Ok(())) => EventSpec::Written(None),
        YmodemEvent::Written(Err(e)) => EventSpec::Written(Some(e.kind)),
        YmodemEvent::Received(Ok(v)) => EventSpec::Received(v@),
        YmodemEvent::Received(Err(e)) => EventSpec::ReadFailed(e.kind),
    }
}

/// A YMODEM transfer session.
pub struct YmodemTransfer {
    char_ms: u64,
    c_ms: u64,
    max_retries: u32,
    finish_without_c: bool,
    finish_alone: bool,
    wait_alone: bool,
    filename: String,
    filename_bytes: Vec<u8>,
    total: usize,
    stage: Stage,
    transition: Vec<u8>,
    trailing: Vec<u8>,
    prefetched: Vec<u8>,
}

impl YmodemTransfer {
    /// The session's fixed parameters.
    pub closed spec fn cfg(self) -> Cfg {
        Cfg {
            char_ms: self.char_ms,
            c_ms: self.c_ms,
            max_retries: self.max_retries,
            finish_without_c: self.finish_without_c,
            filename: self.filename_bytes@,
            name: self.filename@,
            total: self.total,
            finish_alone: self.finish_alone,
            wait_alone: self.wait_alone,
        }
    }

    /// The session's state.
    pub closed spec fn model(self) -> Model {
        Model { stage: self.stage, transition: self.transition@, trailing: self.trailing@ }
    }

    /// Bytes received before the session began, not yet consumed.
    pub closed spec fn pending_input(self) -> Seq<u8> {
        self.prefetched@
    }

    /// The stages keep their block index within the file and their try
    /// count below the limit.
    pub closed spec fn wf(self) -> bool {
        match self.stage {
            Stage::BlockHead { index, attempt } => index <= n_blocks(self.total as nat),
            Stage::BlockSent { index, attempt } => index <= n_blocks(self.total as nat) && attempt < self.max_retries,
            Stage::BlockWait { index, attempt, .. } => index <= n_blocks(self.total as nat) && attempt < self.max_retries,
            Stage::EotSent { attempt } => attempt < self.max_retries,
            Stage::EotWait { attempt, .. } => attempt < self.max_retries,
            Stage::FinishSent { attempt } => attempt < self.max_retries,
            Stage::FinishWait { attempt, .. } => attempt < self.max_retries,
            _ => true,
        }
    }

    /// A session with the default configuration (see
    /// [`YmodemConfig::default`]): one second per answer, a minute for the
    /// first 'C', ten tries per block, the finish block always sent.
    pub fn new() -> (r: YmodemTransfer)
        ensures
            r.wf(),
            r.model() == fresh_model(),
            r.pending_input().len() == 0,
            r.cfg() == fresh_cfg(1000, 60000, 10, true),
    {
        YmodemTransfer::with_config(YmodemConfig::default())
    }

    /// A session with the given configuration, before any transfer.
    pub fn with_config(config: YmodemConfig) -> (r: YmodemTransfer)
        ensures
            r.wf(),
            r.model() == fresh_model(),
            r.pending_input().len() == 0,
            r.cfg() == fresh_cfg(config.char_timeout_ms, config.c_timeout_ms, config.max_retries, config.finish_without_c),
    {
        YmodemTransfer {
            char_ms: config.char_timeout_ms,
            c_ms: config.c_timeout_ms,
            max_retries: config.max_retries,
            finish_without_c: config.finish_without_c,
            finish_alone: false,
            wait_alone: false,
            filename: String::new(),
            filename_bytes: Vec::new(),
            total: 0,
            stage: Stage::Idle,
            transition: Vec::new(),
            trailing: Vec::new(),
            prefetched: Vec::new(),
        }
    }

    /// The same session, with bytes that an earlier stage already read in
    /// front of what the port delivers.
    pub fn with_prefetched_input(self, prefetched_input: Vec<u8>) -> (r: YmodemTransfer)
        requires
            self.wf(),
        ensures
            r.wf(),
            r.cfg() == self.cfg(),
            r.model() == self.model(),
            r.pending_input() == prefetched_input@,
    {
        YmodemTransfer { prefetched: prefetched_input, ..self }
    }

    /// Hands over the bytes that arrived after the transfer, leaving none.
    pub fn take_trailing_data(&mut self) -> (r: Vec<u8>)
        requires
            old(self).wf(),
        ensures
            final(self).wf(),
            r@ == old(self).model().trailing,
            final(self).model() == (Model { trailing: Seq::empty(), ..old(self).model() }),
            final(self).cfg() == old(self).cfg(),
            final(self).pending_input() == old(self).pending_input(),
    {
        let mut r: Vec<u8> = Vec::new();
        std::mem::swap(&mut r, &mut self.trailing);
        r
    }

    /// The next bytes to consume before reading the port: at most
    /// [`READ_CHUNK`] of the prefetched input, or `None` when it is used up.
    pub fn next_input(&mut self) -> (r: Option<Vec<u8>>)
        requires
            old(self).wf(),
        ensures
            final(self).wf(),
            final(self).cfg() == old(self).cfg(),
            final(self).model() == old(self).model(),
            old(self).pending_input().len() == 0 ==> r is None && final(self).pending_input().len() == 0,
            old(self).pending_input().len() > 0 ==> {
                let n = if old(self).pending_input().len() < READ_CHUNK { old(self).pending_input().len() as int } else { READ_CHUNK as int };
                &&& r matches Some(v)
                &&& v@ == old(self).pending_input().subrange(0, n)
                &&& final(self).pending_input() == old(self).pending_input().subrange(n, old(self).pending_input().len() as int)
            },
    {
        if self.prefetched.len() == 0 {
            return None;
        }
        let n = if self.prefetched.len() < READ_CHUNK { self.prefetched.len() } else { READ_CHUNK };
        let ghost before = self.prefetched@;
        let mut head: Vec<u8> = Vec::new();
        append_bytes(&mut head, self.prefetched.as_slice(), 0, n);
        let mut rest: Vec<u8> = Vec::new();
        let len = self.prefetched.len();
        append_bytes(&mut rest, self.prefetched.as_slice(), n, len);
        self.prefetched = rest;
        assert(head@ =~= before.subrange(0, n as int));
        assert(self.prefetched@ =~= before.subrange(n as int, before.len() as int));
        Some(head)
    }

    /// Begins the transfer of a file of `size` bytes named `filename`; the
    /// first event to report is `Ready`.
    pub fn begin(&mut self, filename: &str, size: usize)
        requires
            old(self).wf(),
        ensures
            final(self).wf(),
            final(self).model() == (Model { stage: Stage::Start, transition: Seq::empty(), ..old(self).model() }),
            final(self).cfg() == (Cfg {
                filename: filename.spec_bytes(),
                name: filename@,
                total: size,
                finish_alone: false,
                wait_alone: false,
                ..old(self).cfg()
            }),
            final(self).pending_input() == old(self).pending_input(),
    {
        let name = filename.as_bytes();
        let mut bytes: Vec<u8> = Vec::new();
        append_bytes(&mut bytes, name, 0, name.len());
        assert(bytes@ =~= name@);
        self.stage = Stage::Start;
        self.filename = filename.to_owned();
        self.filename_bytes = bytes;
        self.total = size;
        self.finish_alone = false;
        self.wait_alone = false;
        self.transition = Vec::new();
        assert(self.transition@ =~= Seq::<u8>::empty());
    }

    /// Begins closing a session on its own: the finish block (an empty
    /// block 0) is sent and its answer awaited as at the end of a transfer,
    /// but here a refusal, a cancellation or a failure is the session's
    /// result. There is no file: step the session with empty data.
    pub fn begin_finish(&mut self)
        requires
            old(self).wf(),
        ensures
            final(self).wf(),
            final(self).model() == (Model { stage: Stage::FinishStart, transition: Seq::empty(), ..old(self).model() }),
            final(self).cfg() == (Cfg {
                filename: Seq::empty(),
                name: Seq::empty(),
                total: 0,
                finish_alone: true,
                wait_alone: false,
                ..old(self).cfg()
            }),
            final(self).pending_input() == old(self).pending_input(),
    {
        self.stage = Stage::FinishStart;
        self.filename = String::new();
        self.filename_bytes = Vec::new();
        self.total = 0;
        self.finish_alone = true;
        self.wait_alone = false;
        self.transition = Vec::new();
        assert(self.transition@ =~= Seq::<u8>::empty());
        assert(self.filename_bytes@ =~= Seq::<u8>::empty());
    }

    /// Begins a session that only waits for the receiver's first 'C' (its
    /// request for a CRC transfer): it reads until a chunk holds a 'C'
    /// (success), the 'C' timeout runs out (`Timeout`), a read fails or the
    /// user cancels, and writes nothing. There is no file: step the session
    /// with empty data.
    pub fn begin_wait_for_c(&mut self)
        requires
            old(self).wf(),
        ensures
            final(self).wf(),
            final(self).model() == (Model { stage: Stage::Start, transition: Seq::empty(), ..old(self).model() }),
            final(self).cfg() == (Cfg {
                filename: Seq::empty(),
                name: Seq::empty(),
                total: 0,
                finish_alone: false,
                wait_alone: true,
                ..old(self).cfg()
            }),
            final(self).pending_input() == old(self).pending_input(),
    {
        self.stage = Stage::Start;
        self.filename = String::new();
        self.filename_bytes = Vec::new();
        self.total = 0;
        self.finish_alone = false;
        self.wait_alone = true;
        self.transition = Vec::new();
        assert(self.transition@ =~= Seq::<u8>::empty());
        assert(self.filename_bytes@ =~= Seq::<u8>::empty());
    }
}

/// A session made with [`YmodemTransfer::new`] is the one that
/// [`YmodemTransfer::with_config`] makes of the default configuration (see
/// [`YmodemConfig::default`]): the same parameters, in the same fresh state.
pub proof fn lemma_new_is_with_default(d: YmodemConfig)
    requires
        d.char_timeout_ms == 1000,
        d.c_timeout_ms == 60000,
        d.max_retries == 10,
        d.finish_without_c,
    ensures
        fresh_cfg(1000, 60000, 10, true) == fresh_cfg(d.char_timeout_ms, d.c_timeout_ms, d.max_retries, d.finish_without_c),
{
}

/// Whether a session, after a step, stands and acts as `expected` says.
pub open spec fn yields(after: YmodemTransfer, a: YmodemAction, expected: (Model, ActionSpec)) -> bool {
    after.model() == expected.0 && action_spec(a) == expected.1
}

fn blocks_for(total: usize) -> (r: usize)
    ensures
        r == n_blocks(total as nat),
{
    total / 1024 + if total % 1024 == 0 { 0 } else { 1 }
}

proof fn lemma_block_in_file(total: nat, index: nat)
    requires
        1 <= index <= n_blocks(total),
    ensures
        (index - 1) * 1024 < total,
        (index - 1) * 1024 + 1024 == index * 1024,
{
    let q = total / 1024;
    let r = total % 1024;
    vstd::arithmetic::div_mod::lemma_fundamental_div_mod(total as int, 1024);
    assert(total == 1024 * q + r);
    assert((index - 1) * 1024 + 1024 == index * 1024) by (nonlinear_arith);
    if r == 0 {
        assert((index - 1) * 1024 <= (q - 1) * 1024) by (nonlinear_arith)
            requires
                index <= q,
                1 <= index,
        ;
        assert((q - 1) * 1024 == 1024 * q - 1024) by (nonlinear_arith);
    } else {
        assert((index - 1) * 1024 <= q * 1024) by (nonlinear_arith)
            requires
                index <= q + 1,
                1 <= index,
        ;
    }
}

/// The fewest hexadecimal digits, `w` or more and at most 16, that show `v`
/// (zero padding to `w` digits).
pub open spec fn hex_width_from(v: nat, w: nat) -> nat
    decreases 16 - w,
{
    if w < 16 && v >= pow2(4 * w) {
        hex_width_from(v, w + 1)
    } else {
        w
    }
}

/// What a transfer of `filename` was doing when block `index` failed: the
/// file information block, or a data block by its sequence number and the
/// file offset of its data (in upper-case hexadecimal, at least 8 digits).
pub open spec fn block_context(filename: Seq<char>, index: nat) -> Seq<char> {
    if index == 0 {
        "while sending YMODEM file info for "@ + filename
    } else {
        let offset = ((index - 1) * 1024) as nat;
        "while sending YMODEM data block "@ + dec_text(index % 256) + " for "@ + filename
            + " at offset 0x"@ + hex_text(offset, hex_width_from(offset, 8))
    }
}

proof fn lemma_width_step(v: u64, shift: u64)
    requires
        shift < 64,
    ensures
        (v >> shift != 0) == (v as nat >= pow2(shift as nat)),
{
    lemma_u64_shr_is_div(v, shift);
    lemma_pow2_pos(shift as nat);
    let p = pow2(shift as nat);
    let x: nat = v as nat;
    if x >= p {
        assert(x / p >= 1) by (nonlinear_arith)
            requires
                x >= p,
                p > 0,
        ;
    } else {
        assert(x / p == 0) by (nonlinear_arith)
            requires
                x < p,
                p > 0,
        ;
    }
}

impl YmodemTransfer {
    fn block_for(&self, data: &[u8], index: usize) -> (r: Vec<u8>)
        requires
            index <= n_blocks(self.total as nat),
            data@.len() == self.total,
        ensures
            r@ == block_of(self.cfg(), data@, index as nat),
    {
        if index == 0 {
            file_info_block(self.filename_bytes.as_slice(), self.total)
        } else {
            proof {
                lemma_block_in_file(self.total as nat, index as nat);
            }
            let offset = (index - 1) * 1024;
            let end = if self.total - offset >= 1024 { offset + 1024 } else { self.total };
            assert(end == chunk_end(self.total as nat, index as nat));
            let chunk = &data[offset..end];
            assert(chunk@ =~= data_chunk(data@, index as nat));
            build_block((index % 256) as u8, chunk, true)
        }
    }

    fn context_for_block(&self, index: usize) -> (r: String)
        requires
            index <= n_blocks(self.total as nat),
        ensures
            r@ == block_context(self.cfg().name, index as nat),
    {
        let mut msg = String::new();
        if index == 0 {
            msg.append("while sending YMODEM file info for ");
            msg.append(self.filename.as_str());
        } else {
            proof {
                lemma_block_in_file(self.total as nat, index as nat);
            }
            let offset = (index - 1) * 1024;
            msg.append("while sending YMODEM data block ");
            push_dec(&mut msg, (index % 256) as u64);
            msg.append(" for ");
            msg.append(self.filename.as_str());
            msg.append(" at offset 0x");
            let v: u64 = offset as u64;
            let mut width: u32 = 8;
            while width < 16 && v >> ((4 * width) as u64) != 0
                invariant
                    8 <= width <= 16,
                    hex_width_from(v as nat, width as nat) == hex_width_from(v as nat, 8),
                decreases 16 - width,
            {
                proof {
                    lemma_width_step(v, (4 * width) as u64);
                }
                width = width + 1;
            }
            proof {
                if width < 16 {
                    lemma_width_step(v, (4 * width) as u64);
                }
            }
            push_hex(&mut msg, v, width);
        }
        msg
    }

    fn block_error(&self, index: usize, cause: &str) -> (r: Error)
        requires
            index <= n_blocks(self.total as nat),
        ensures
            r is Ymodem,
    {
        let mut msg = self.context_for_block(index);
        msg.append(": ");
        msg.append(cause);
        Error::Ymodem(msg)
    }

    fn retries_error(&self, index: usize) -> (r: Error)
        requires
            index <= n_blocks(self.total as nat),
        ensures
            r is Ymodem,
    {
        let mut msg = self.context_for_block(index);
        msg.append(": Block transfer failed after ");
        push_dec(&mut msg, self.max_retries as u64);
        msg.append(" retries");
        Error::Ymodem(msg)
    }

    fn ended(&mut self, r: Result<(), Error>) -> (a: YmodemAction)
        ensures
            final(self).wf(),
            final(self).cfg() == old(self).cfg(),
            final(self).pending_input() == old(self).pending_input(),
            final(self).model() == at(old(self).model(), Stage::Idle),
            a == YmodemAction::Finished(r),
    {
        self.stage = Stage::Idle;
        YmodemAction::Finished(r)
    }

    fn finish_failed(&mut self, e: Error) -> (a: YmodemAction)
        ensures
            final(self).wf(),
            final(self).cfg() == old(self).cfg(),
            final(self).pending_input() == old(self).pending_input(),
            yields(*final(self), a, finish_end(old(self).cfg(), old(self).model(), outcome_of(Err(e)))),
    {
        if self.finish_alone {
            self.ended(Err(e))
        } else {
            self.ended(Ok(()))
        }
    }

    fn finish_head(&mut self, cancelled: bool, attempt: u32) -> (a: YmodemAction)
        requires
            old(self).wf(),
        ensures
            final(self).wf(),
            final(self).cfg() == old(self).cfg(),
            final(self).pending_input() == old(self).pending_input(),
            yields(*final(self), a, finish_head(old(self).cfg(), old(self).model(), cancelled, attempt)),
    {
        if attempt >= self.max_retries {
            let mut msg = String::from_str("Block transfer failed after ");
            push_dec(&mut msg, self.max_retries as u64);
            msg.append(" retries");
            self.finish_failed(Error::Ymodem(msg))
        } else if cancelled {
            self.finish_failed(Error::interrupted())
        } else {
            self.stage = Stage::FinishSent { attempt };
            let empty: Vec<u8> = Vec::new();
            let block = build_block(0, empty.as_slice(), false);
            assert(empty@ =~= Seq::<u8>::empty());
            YmodemAction::Write(block)
        }
    }

    fn finish_wait_head(&mut self, now: u64, cancelled: bool, attempt: u32, deadline: u64) -> (a: YmodemAction)
        requires
            old(self).wf(),
            attempt < old(self).cfg().max_retries,
        ensures
            final(self).wf(),
            final(self).cfg() == old(self).cfg(),
            final(self).pending_input() == old(self).pending_input(),
            yields(*final(self), a, finish_wait_head(old(self).cfg(), old(self).model(), now, cancelled, attempt, deadline)),
    {
        if now >= deadline {
            self.finish_head(cancelled, attempt + 1)
        } else if cancelled {
            self.finish_failed(Error::interrupted())
        } else {
            self.stage = Stage::FinishWait { attempt, deadline };
            YmodemAction::Read
        }
    }

    fn after_eot(&mut self, cancelled: bool, requested: bool) -> (a: YmodemAction)
        requires
            old(self).wf(),
        ensures
            final(self).wf(),
            final(self).cfg() == old(self).cfg(),
            final(self).pending_input() == old(self).pending_input(),
            yields(*final(self), a, after_eot(old(self).cfg(), old(self).model(), cancelled, requested)),
    {
        if requested || self.finish_without_c {
            self.finish_head(cancelled, 0)
        } else {
            self.ended(Ok(()))
        }
    }

    fn eot_head(&mut self, cancelled: bool, attempt: u32) -> (a: YmodemAction)
        requires
            old(self).wf(),
        ensures
            final(self).wf(),
            final(self).cfg() == old(self).cfg(),
            final(self).pending_input() == old(self).pending_input(),
            yields(*final(self), a, eot_head(old(self).cfg(), old(self).model(), cancelled, attempt)),
    {
        if attempt >= self.max_retries {
            self.after_eot(cancelled, false)
        } else if cancelled {
            self.ended(Err(Error::interrupted()))
        } else {
            self.stage = Stage::EotSent { attempt };
            let mut v: Vec<u8> = Vec::new();
            v.push(EOT);
            assert(v@ =~= seq![EOT]);
            YmodemAction::Write(v)
        }
    }

    fn eot_break(&mut self, cancelled: bool, attempt: u32, saw_ack: bool) -> (a: YmodemAction)
        requires
            old(self).wf(),
            attempt < old(self).cfg().max_retries,
        ensures
            final(self).wf(),
            final(self).cfg() == old(self).cfg(),
            final(self).pending_input() == old(self).pending_input(),
            yields(*final(self), a, eot_break(old(self).cfg(), old(self).model(), cancelled, attempt, saw_ack)),
    {
        if saw_ack {
            let ghost before = self.trailing@;
            let n = self.transition.len();
            append_bytes(&mut self.trailing, self.transition.as_slice(), 0, n);
            assert(self.transition@.subrange(0, n as int) =~= self.transition@);
            assert(self.trailing@ == before + self.transition@);
            self.after_eot(cancelled, false)
        } else {
            self.eot_head(cancelled, attempt + 1)
        }
    }

    fn eot_wait_head(
        &mut self,
        now: u64,
        cancelled: bool,
        attempt: u32,
        deadline: u64,
        saw_ack: bool,
        ack_seen: bool,
        ack_seen_at: u64,
    ) -> (a: YmodemAction)
        requires
            old(self).wf(),
            attempt < old(self).cfg().max_retries,
        ensures
            final(self).wf(),
            final(self).cfg() == old(self).cfg(),
            final(self).pending_input() == old(self).pending_input(),
            yields(
                *final(self),
                a,
                eot_wait_head(old(self).cfg(), old(self).model(), now, cancelled, attempt, deadline, saw_ack, ack_seen, ack_seen_at),
            ),
    {
        if cancelled {
            self.ended(Err(Error::interrupted()))
        } else if self.finish_without_c && ack_seen && now >= ack_seen_at && now - ack_seen_at >= EOT_ACK_SETTLE_MS {
            self.after_eot(cancelled, false)
        } else if now >= deadline {
            self.eot_break(cancelled, attempt, saw_ack)
        } else {
            self.stage = Stage::EotWait { attempt, deadline, saw_ack, ack_seen, ack_seen_at };
            YmodemAction::Read
        }
    }

    fn block_head(&mut self, data: &[u8], cancelled: bool, index: usize, attempt: u32) -> (a: YmodemAction)
        requires
            old(self).wf(),
            index <= n_blocks(old(self).cfg().total as nat),
            data@.len() == old(self).cfg().total,
        ensures
            final(self).wf(),
            final(self).cfg() == old(self).cfg(),
            final(self).pending_input() == old(self).pending_input(),
            yields(*final(self), a, block_head(old(self).cfg(), old(self).model(), data@, cancelled, index, attempt)),
    {
        if attempt >= self.max_retries {
            let e = self.retries_error(index);
            self.ended(Err(e))
        } else if cancelled {
            self.ended(Err(Error::interrupted()))
        } else {
            let block = self.block_for(data, index);
            self.stage = Stage::BlockSent { index, attempt };
            YmodemAction::Write(block)
        }
    }

    fn block_wait_head(
        &mut self,
        data: &[u8],
        now: u64,
        cancelled: bool,
        index: usize,
        attempt: u32,
        deadline: u64,
        retry_seen: bool,
        retry_seen_at: u64,
    ) -> (a: YmodemAction)
        requires
            old(self).wf(),
            index <= n_blocks(old(self).cfg().total as nat),
            attempt < old(self).cfg().max_retries,
            data@.len() == old(self).cfg().total,
        ensures
            final(self).wf(),
            final(self).cfg() == old(self).cfg(),
            final(self).pending_input() == old(self).pending_input(),
            yields(
                *final(self),
                a,
                block_wait_head(old(self).cfg(), old(self).model(), data@, now, cancelled, index, attempt, deadline, retry_seen, retry_seen_at),
            ),
    {
        if now >= deadline {
            self.block_head(data, cancelled, index, attempt + 1)
        } else if cancelled {
            self.ended(Err(Error::interrupted()))
        } else if retry_seen && now >= retry_seen_at && now - retry_seen_at >= RETRY_REQUEST_GRACE_MS {
            self.block_head(data, cancelled, index, attempt + 1)
        } else {
            self.stage = Stage::BlockWait { index, attempt, deadline, retry_seen, retry_seen_at };
            YmodemAction::Read
        }
    }

    fn block_acked(&mut self, data: &[u8], cancelled: bool, index: usize) -> (a: YmodemAction)
        requires
            old(self).wf(),
            index <= n_blocks(old(self).cfg().total as nat),
            data@.len() == old(self).cfg().total,
        ensures
            final(self).wf(),
            final(self).cfg() == old(self).cfg(),
            final(self).pending_input() == old(self).pending_input(),
            yields(*final(self), a, block_acked(old(self).cfg(), old(self).model(), data@, cancelled, index)),
    {
        let n = blocks_for(self.total);
        if index == 0 {
            if n == 0 {
                self.eot_head(cancelled, 0)
            } else {
                self.block_head(data, cancelled, 1, 0)
            }
        } else {
            proof {
                lemma_block_in_file(self.total as nat, index as nat);
            }
            let offset = (index - 1) * 1024;
            let end = if self.total - offset >= 1024 { offset + 1024 } else { self.total };
            assert(end == chunk_end(self.total as nat, index as nat));
            if index < n {
                self.stage = Stage::BlockHead { index: index + 1, attempt: 0 };
            } else {
                self.stage = Stage::EotHead { attempt: 0 };
            }
            YmodemAction::Progress { current: end, total: self.total }
        }
    }

    fn waitc_head(&mut self, now: u64, cancelled: bool, deadline: u64) -> (a: YmodemAction)
        requires
            old(self).wf(),
        ensures
            final(self).wf(),
            final(self).cfg() == old(self).cfg(),
            final(self).pending_input() == old(self).pending_input(),
            yields(*final(self), a, waitc_head(old(self).cfg(), old(self).model(), now, cancelled, deadline)),
    {
        if now >= deadline {
            if self.wait_alone {
                self.ended(Err(Error::Timeout(String::from_str("Timeout waiting for 'C'"))))
            } else {
                let mut msg = String::new();
                msg.append("while waiting for receiver request for ");
                msg.append(self.filename.as_str());
                msg.append(": timeout: Timeout waiting for 'C'");
                self.ended(Err(Error::Ymodem(msg)))
            }
        } else if cancelled {
            self.ended(Err(Error::interrupted()))
        } else {
            self.stage = Stage::WaitC { deadline };
            YmodemAction::Read
        }
    }
}

impl YmodemTransfer {
    /// Takes in what happened (`event`), the time in milliseconds on a
    /// clock of the driver's choosing, and whether the user asked to cancel;
    /// answers with the next action. `data` is the file being sent.
    pub fn step(&mut self, data: &[u8], now: u64, cancelled: bool, event: YmodemEvent) -> (a: YmodemAction)
        requires
            old(self).wf(),
        ensures
            final(self).wf(),
            final(self).cfg() == old(self).cfg(),
            final(self).pending_input() == old(self).pending_input(),
            yields(*final(self), a, step_spec(old(self).cfg(), old(self).model(), data@, now, cancelled, event_spec(event))),
    {
        if data.len() != self.total {
            return self.ended(Err(Error::Protocol(String::from_str("YMODEM data does not match the announced size"))));
        }
        let stage = self.stage;
        match event {
            YmodemEvent::Ready => match stage {
                Stage::Start => {
                    if cancelled {
                        self.ended(Err(Error::interrupted()))
                    } else {
                        let deadline = now.saturating_add(self.c_ms);
                        self.waitc_head(now, cancelled, deadline)
                    }
                },
                Stage::BlockHead { index, attempt } => self.block_head(data, cancelled, index, attempt),
                Stage::EotHead { attempt } => self.eot_head(cancelled, attempt),
                Stage::FinishStart => self.finish_head(cancelled, 0),
                _ => self.misuse(),
            },
            YmodemEvent::Written(w) => match stage {
                Stage::BlockSent { index, attempt } => match w {
                    Ok(()) => {
                        let deadline = now.saturating_add(self.char_ms);
                        self.block_wait_head(data, now, cancelled, index, attempt, deadline, false, 0)
                    },
                    Err(e) => self.ended(Err(Error::Io(e))),
                },
                Stage::EotSent { attempt } => match w {
                    Ok(()) => {
                        self.transition = Vec::new();
                        let wait = if self.finish_without_c || self.char_ms >= POST_EOT_C_TIMEOUT_MS {
                            self.char_ms
                        } else {
                            POST_EOT_C_TIMEOUT_MS
                        };
                        let deadline = now.saturating_add(wait);
                        assert(self.transition@ =~= Seq::<u8>::empty());
                        self.eot_wait_head(now, cancelled, attempt, deadline, false, false, 0)
                    },
                    Err(e) => self.ended(Err(Error::Io(e))),
                },
                Stage::FinishSent { attempt } => match w {
                    Ok(()) => {
                        self.transition = Vec::new();
                        let deadline = now.saturating_add(self.char_ms);
                        assert(self.transition@ =~= Seq::<u8>::empty());
                        self.finish_wait_head(now, cancelled, attempt, deadline)
                    },
                    Err(e) => self.finish_failed(Error::Io(e)),
                },
                _ => self.misuse(),
            },
            YmodemEvent::Received(r) => match r {
                Ok(chunk) => self.received(data, now, cancelled, chunk),
                Err(e) => self.read_failed(data, now, cancelled, e),
            },
        }
    }

    fn misuse(&mut self) -> (a: YmodemAction)
        ensures
            final(self).wf(),
            final(self).cfg() == old(self).cfg(),
            final(self).pending_input() == old(self).pending_input(),
            final(self).model() == at(old(self).model(), Stage::Idle),
            action_spec(a) == ActionSpec::Finished(Outcome::Misuse),
    {
        self.ended(Err(Error::Protocol(String::from_str("YMODEM session driven out of order"))))
    }

    fn read_failed(&mut self, data: &[u8], now: u64, cancelled: bool, e: IoError) -> (a: YmodemAction)
        requires
            old(self).wf(),
            data@.len() == old(self).cfg().total,
        ensures
            final(self).wf(),
            final(self).cfg() == old(self).cfg(),
            final(self).pending_input() == old(self).pending_input(),
            yields(*final(self), a, step_spec(old(self).cfg(), old(self).model(), data@, now, cancelled, EventSpec::ReadFailed(e.kind))),
    {
        let timed_out = e.kind == IoErrorKind::TimedOut;
        match self.stage {
            Stage::WaitC { deadline } => {
                if timed_out {
                    self.waitc_head(now, cancelled, deadline)
                } else {
                    self.ended(Err(Error::Io(e)))
                }
            },
            Stage::BlockWait { index, attempt, deadline, retry_seen, retry_seen_at } => {
                if timed_out {
                    self.block_wait_head(data, now, cancelled, index, attempt, deadline, retry_seen, retry_seen_at)
                } else {
                    self.ended(Err(Error::Io(e)))
                }
            },
            Stage::EotWait { attempt, deadline, saw_ack, ack_seen, ack_seen_at } => {
                if timed_out {
                    if saw_ack && self.finish_without_c {
                        self.after_eot(cancelled, false)
                    } else {
                        self.eot_wait_head(now, cancelled, attempt, deadline, saw_ack, ack_seen, ack_seen_at)
                    }
                } else {
                    self.ended(Err(Error::Io(e)))
                }
            },
            Stage::FinishWait { attempt, deadline } => {
                if timed_out {
                    self.finish_wait_head(now, cancelled, attempt, deadline)
                } else {
                    self.finish_failed(Error::Io(e))
                }
            },
            _ => self.misuse(),
        }
    }

    fn received(&mut self, data: &[u8], now: u64, cancelled: bool, chunk: Vec<u8>) -> (a: YmodemAction)
        requires
            old(self).wf(),
            data@.len() == old(self).cfg().total,
        ensures
            final(self).wf(),
            final(self).cfg() == old(self).cfg(),
            final(self).pending_input() == old(self).pending_input(),
            yields(*final(self), a, step_spec(old(self).cfg(), old(self).model(), data@, now, cancelled, EventSpec::Received(chunk@))),
    {
        let bytes = chunk.as_slice();
        match self.stage {
            Stage::WaitC { deadline } => {
                if has_byte(bytes, CRC_REQUEST) {
                    if self.wait_alone {
                        self.ended(Ok(()))
                    } else {
                        self.block_head(data, cancelled, 0, 0)
                    }
                } else {
                    self.waitc_head(now, cancelled, deadline)
                }
            },
            Stage::BlockWait { index, attempt, deadline, retry_seen, retry_seen_at } => {
                if bytes.len() == 0 {
                    self.block_wait_head(data, now, cancelled, index, attempt, deadline, retry_seen, retry_seen_at)
                } else if has_byte(bytes, ACK) {
                    self.block_acked(data, cancelled, index)
                } else if has_byte(bytes, NAK) {
                    self.block_head(data, cancelled, index, attempt + 1)
                } else if has_byte(bytes, CAN) {
                    let e = self.block_error(index, "Transfer cancelled by receiver");
                    self.ended(Err(e))
                } else if only_requests(bytes) {
                    let at = if retry_seen { retry_seen_at } else { now };
                    self.block_wait_head(data, now, cancelled, index, attempt, deadline, true, at)
                } else {
                    self.block_wait_head(data, now, cancelled, index, attempt, deadline, retry_seen, retry_seen_at)
                }
            },
            Stage::EotWait { attempt, deadline, saw_ack, ack_seen, ack_seen_at } => {
                if bytes.len() == 0 {
                    self.eot_wait_head(now, cancelled, attempt, deadline, saw_ack, ack_seen, ack_seen_at)
                } else if has_byte(bytes, CAN) {
                    let mut msg = String::new();
                    msg.append("while finishing YMODEM payload for ");
                    msg.append(self.filename.as_str());
                    msg.append(": Transfer cancelled by receiver");
                    self.ended(Err(Error::Ymodem(msg)))
                } else if has_byte(bytes, NAK) {
                    self.eot_break(cancelled, attempt, saw_ack)
                } else {
                    let has_ack = has_byte(bytes, ACK);
                    if has_byte(bytes, CRC_REQUEST) && (saw_ack || has_ack) {
                        self.after_eot(cancelled, true)
                    } else {
                        let saw2 = saw_ack || has_ack;
                        let seen2 = if has_ack { true } else { ack_seen };
                        let at2 = if has_ack { now } else { ack_seen_at };
                        if !only_control(bytes) {
                            let ghost before = self.transition@;
                            let n = bytes.len();
                            append_bytes(&mut self.transition, bytes, 0, n);
                            assert(bytes@.subrange(0, n as int) =~= bytes@);
                            let magic: [u8; 4] = [0xEF, 0xBE, 0xAD, 0xDE];
                            assert(magic@ =~= seboot_magic());
                            if bytes_contain(self.transition.as_slice(), magic.as_slice()) {
                                let ghost tb = self.trailing@;
                                let m = self.transition.len();
                                append_bytes(&mut self.trailing, self.transition.as_slice(), 0, m);
                                assert(self.transition@.subrange(0, m as int) =~= self.transition@);
                                assert(self.trailing@ == tb + self.transition@);
                                self.after_eot(cancelled, false)
                            } else {
                                self.eot_wait_head(now, cancelled, attempt, deadline, saw2, seen2, at2)
                            }
                        } else {
                            self.eot_wait_head(now, cancelled, attempt, deadline, saw2, seen2, at2)
                        }
                    }
                }
            },
            Stage::FinishWait { attempt, deadline } => {
                if bytes.len() == 0 {
                    self.finish_wait_head(now, cancelled, attempt, deadline)
                } else if has_byte(bytes, CAN) {
                    self.finish_failed(Error::Ymodem(String::from_str("Transfer cancelled by receiver")))
                } else if has_byte(bytes, NAK) {
                    self.finish_head(cancelled, attempt + 1)
                } else if has_byte(bytes, ACK) {
                    let i = position_of(bytes, ACK);
                    proof {
                        lemma_first_pos(bytes@, ACK, 0);
                        if i == bytes@.len() {
                            let j = choose|j: int| 0 <= j < bytes@.len() && bytes@[j] == ACK;
                            assert(bytes@[j] != ACK);
                        }
                    }
                    let ghost tb = self.trailing@;
                    let m = self.transition.len();
                    append_bytes(&mut self.trailing, self.transition.as_slice(), 0, m);
                    assert(self.transition@.subrange(0, m as int) =~= self.transition@);
                    let n = bytes.len();
                    append_bytes(&mut self.trailing, bytes, 0, i);
                    append_bytes(&mut self.trailing, bytes, i + 1, n);
                    self.ended(Ok(()))
                } else {
                    let n = bytes.len();
                    append_bytes(&mut self.transition, bytes, 0, n);
                    assert(bytes@.subrange(0, n as int) =~= bytes@);
                    self.finish_wait_head(now, cancelled, attempt, deadline)
                }
            },
            _ => self.misuse(),
        }
    }
}

/// Once the user has cancelled, a session writes nothing more: whatever
/// happened, its next action is not a write.
pub proof fn lemma_cancel_stops_writing(c: Cfg, m: Model, data: Seq<u8>, now: u64, ev: EventSpec)
    ensures
        !(step_spec(c, m, data, now, true, ev).1 is Write),
{
}

/// A session that only waits for the first 'C' never writes: whatever
/// happens, it reads again or ends, successfully on a 'C'.
pub proof fn lemma_wait_alone_never_writes(c: Cfg, m: Model, data: Seq<u8>, now: u64, cancelled: bool, ev: EventSpec)
    requires
        c.wait_alone,
        m.stage is Start || m.stage is WaitC,
    ensures
        !(step_spec(c, m, data, now, cancelled, ev).1 is Write),
        ev matches EventSpec::Received(chunk) && m.stage is WaitC && data.len() == c.total && chunk.contains(CRC_REQUEST)
            ==> step_spec(c, m, data, now, cancelled, ev) == done(m, Outcome::Success),
{
}

/// A transfer cancelled before it started ends at once, interrupted, and
/// writes nothing.
pub proof fn lemma_cancel_before_start(c: Cfg, m: Model, data: Seq<u8>, now: u64)
    requires
        m.stage == Stage::Start,
        data.len() == c.total,
    ensures
        step_spec(c, m, data, now, true, EventSpec::Ready) == done(m, Outcome::IoFailure(IoErrorKind::Interrupted)),
{
}

/// Every write that a session asks for is a try below the configured
/// number of tries: a block, the EOT or the finish block is never sent more
/// than `max_retries` times in a row.
pub proof fn lemma_writes_within_retries(c: Cfg, m: Model, data: Seq<u8>, now: u64, cancelled: bool, ev: EventSpec)
    ensures
        step_spec(c, m, data, now, cancelled, ev).1 is Write ==> match step_spec(c, m, data, now, cancelled, ev).0.stage {
            Stage::BlockSent { index, attempt } => attempt < c.max_retries,
            Stage::EotSent { attempt } => attempt < c.max_retries,
            Stage::FinishSent { attempt } => attempt < c.max_retries,
            _ => false,
        },
{
}

/// The data blocks cover the file in order: block `k` (from 1) starts
/// where block `k - 1` ended, holds at least one and at most 1024 bytes, and
/// the last one ends at the end of the file.
pub proof fn lemma_data_blocks_cover(total: nat, k: nat)
    requires
        1 <= k <= n_blocks(total),
    ensures
        (k - 1) * 1024 < chunk_end(total, k) <= (k - 1) * 1024 + 1024,
        k > 1 ==> chunk_end(total, (k - 1) as nat) == (k - 1) * 1024,
        k == n_blocks(total) ==> chunk_end(total, k) == total,
{
    lemma_block_in_file(total, k);
    let q = total / 1024;
    let r = total % 1024;
    vstd::arithmetic::div_mod::lemma_fundamental_div_mod(total as int, 1024);
    if k > 1 {
        lemma_block_in_file(total, (k - 1) as nat);
        assert(((k - 1) as nat) * 1024 <= total);
    }
    if k == n_blocks(total) {
        if r == 0 {
            assert(k * 1024 == total) by (nonlinear_arith)
                requires
                    k == q,
                    total == 1024 * q + r,
                    r == 0,
            ;
        } else {
            assert(k * 1024 > total) by (nonlinear_arith)
                requires
                    k == q + 1,
                    total == 1024 * q + r,
                    r < 1024,
            ;
        }
    }
}

/// A block is its header, sequence number and complement, the payload of
/// the block's size and two CRC bytes; the payload starts with the data.
pub proof fn lemma_block_layout(seq: u8, data: Seq<u8>, use_stx: bool)
    ensures
        block_bytes(seq, data, use_stx).len() == (if use_stx { 1024nat } else { 128nat }) + 5,
        block_bytes(seq, data, use_stx)[0] == (if use_stx { STX } else { SOH }),
        block_bytes(seq, data, use_stx)[1] == seq,
        block_bytes(seq, data, use_stx)[2] == !seq,
        forall|i: int|
            0 <= i < data.len() && i < (if use_stx { 1024int } else { 128int }) ==> #[trigger] block_bytes(seq, data, use_stx)[3 + i] == data[i],
{
}

/// What a receiver that accepts everything at once answers to an action: a
/// write succeeds; a read brings the 'C' request while the sender waits for
/// it, an ACK with a 'C' after the EOT, and a lone ACK otherwise; anything
/// else is followed by `Ready`.
pub open spec fn willing_answer(m: Model, a: ActionSpec) -> EventSpec {
    match a {
        ActionSpec::Write(_) => EventSpec::Written(None),
        ActionSpec::Read => if m.stage is WaitC {
            EventSpec::Received(seq![CRC_REQUEST])
        } else if m.stage is EotWait {
            EventSpec::Received(seq![ACK, CRC_REQUEST])
        } else {
            EventSpec::Received(seq![ACK])
        },
        _ => EventSpec::Ready,
    }
}

/// A session run for `fuel` steps against a receiver that accepts
/// everything at once (see [`willing_answer`]), with the clock standing at
/// `now` and no cancellation, from state `m` and event `ev`: the bytes it
/// wrote, the progress it reported, how it ended (if it did) and where it
/// stands.
pub open spec fn willing_run(c: Cfg, m: Model, data: Seq<u8>, now: u64, ev: EventSpec, fuel: nat) -> (
    Seq<Seq<u8>>,
    Seq<usize>,
    Option<Outcome>,
    Model,
)
    decreases fuel,
{
    if fuel == 0 {
        (Seq::empty(), Seq::empty(), None, m)
    } else {
        let (m2, a) = step_spec(c, m, data, now, false, ev);
        match a {
            ActionSpec::Finished(o) => (Seq::empty(), Seq::empty(), Some(o), m2),
            _ => {
                let (w, p, o, mf) = willing_run(c, m2, data, now, willing_answer(m2, a), (fuel - 1) as nat);
                match a {
                    ActionSpec::Write(b) => (seq![b] + w, p, o, mf),
                    ActionSpec::Progress(x, _) => (w, seq![x] + p, o, mf),
                    _ => (w, p, o, mf),
                }
            },
        }
    }
}

/// The data blocks from block `k` on, in order.
pub open spec fn data_blocks_from(c: Cfg, data: Seq<u8>, k: nat) -> Seq<Seq<u8>>
    decreases n_blocks(c.total as nat) + 1 - k,
{
    if k == 0 || k > n_blocks(c.total as nat) {
        Seq::empty()
    } else {
        seq![block_of(c, data, k)] + data_blocks_from(c, data, k + 1)
    }
}

/// The progress reported from data block `k` on: where each block ends.
pub open spec fn progress_from(c: Cfg, k: nat) -> Seq<usize>
    decreases n_blocks(c.total as nat) + 1 - k,
{
    if k == 0 || k > n_blocks(c.total as nat) {
        Seq::empty()
    } else {
        seq![chunk_end(c.total as nat, k) as usize] + progress_from(c, k + 1)
    }
}

proof fn lemma_willing_blocks(c: Cfg, m: Model, data: Seq<u8>, now: u64, k: nat, extra: nat)
    requires
        1 <= k <= n_blocks(c.total as nat),
        m.stage == (Stage::BlockHead { index: k as usize, attempt: 0 }),
        data.len() == c.total,
        c.max_retries > 0,
        c.char_ms > 0,
        now < u64::MAX,
    ensures
        ({
            let tail = willing_run(c, at(m, Stage::EotSent { attempt: 0 }), data, now, EventSpec::Written(None), extra);
            willing_run(c, m, data, now, EventSpec::Ready, (3 * (n_blocks(c.total as nat) + 1 - k) + 1 + extra) as nat) == (
                data_blocks_from(c, data, k).push(seq![EOT]) + tail.0,
                progress_from(c, k) + tail.1,
                tail.2,
                tail.3,
            )
        }),
    decreases n_blocks(c.total as nat) + 1 - k,
{
    let n = n_blocks(c.total as nat);
    lemma_block_in_file(c.total as nat, k);
    let fuel: nat = (3 * (n + 1 - k) + 1 + extra) as nat;
    let m1 = at(m, Stage::BlockSent { index: k as usize, attempt: 0 });
    assert(step_spec(c, m, data, now, false, EventSpec::Ready) == (m1, ActionSpec::Write(block_of(c, data, k))));
    let dl = sat_add(now, c.char_ms);
    assert(dl > now);
    let m2 = at(m, Stage::BlockWait { index: k as usize, attempt: 0, deadline: dl, retry_seen: false, retry_seen_at: 0 });
    assert(at(m1, m2.stage) == m2);
    assert(step_spec(c, m1, data, now, false, EventSpec::Written(None)) == (m2, ActionSpec::Read));
    let ack = seq![ACK];
    assert(ack.contains(ACK)) by {
        assert(ack[0] == ACK);
    }
    let next = if k < n { Stage::BlockHead { index: (k + 1) as usize, attempt: 0 } } else { Stage::EotHead { attempt: 0 } };
    let m3 = at(m, next);
    assert(at(m2, next) == m3);
    assert(step_spec(c, m2, data, now, false, EventSpec::Received(ack)) == (
        m3,
        ActionSpec::Progress(chunk_end(c.total as nat, k) as usize, c.total),
    ));
    assert(willing_answer(m1, ActionSpec::Write(block_of(c, data, k))) == EventSpec::Written(None));
    assert(willing_answer(m2, ActionSpec::Read) == EventSpec::Received(ack));
    let rest = willing_run(c, m3, data, now, EventSpec::Ready, (fuel - 3) as nat);
    assert(willing_run(c, m2, data, now, EventSpec::Received(ack), (fuel - 2) as nat) == (
        rest.0,
        seq![chunk_end(c.total as nat, k) as usize] + rest.1,
        rest.2,
        rest.3,
    ));
    assert(willing_run(c, m1, data, now, EventSpec::Written(None), (fuel - 1) as nat) == willing_run(
        c,
        m2,
        data,
        now,
        EventSpec::Received(ack),
        (fuel - 2) as nat,
    ));
    let m4 = at(m, Stage::EotSent { attempt: 0 });
    let tail = willing_run(c, m4, data, now, EventSpec::Written(None), extra);
    if k < n {
        lemma_willing_blocks(c, m3, data, now, k + 1, extra);
        assert(at(m3, Stage::EotSent { attempt: 0 }) == m4);
        assert(data_blocks_from(c, data, k).push(seq![EOT]) + tail.0 =~= seq![block_of(c, data, k)] + (
        data_blocks_from(c, data, k + 1).push(seq![EOT]) + tail.0));
        assert(progress_from(c, k) + tail.1 =~= seq![chunk_end(c.total as nat, k) as usize] + (progress_from(c, k + 1)
            + tail.1));
    } else {
        assert(at(m3, m4.stage) == m4);
        assert(step_spec(c, m3, data, now, false, EventSpec::Ready) == (m4, ActionSpec::Write(seq![EOT])));
        assert(willing_answer(m4, ActionSpec::Write(seq![EOT])) == EventSpec::Written(None));
        assert(rest == (seq![seq![EOT]] + tail.0, tail.1, tail.2, tail.3));
        assert(data_blocks_from(c, data, k + 1) == Seq::<Seq<u8>>::empty());
        assert(progress_from(c, k + 1) == Seq::<usize>::empty());
        assert(data_blocks_from(c, data, k).push(seq![EOT]) + tail.0 =~= seq![block_of(c, data, k)] + (seq![seq![EOT]]
            + tail.0));
        assert(progress_from(c, k) + tail.1 =~= seq![chunk_end(c.total as nat, k) as usize] + tail.1);
    }
}

proof fn lemma_willing_close(c: Cfg, m: Model, data: Seq<u8>, now: u64, fuel: nat)
    requires
        m.stage == (Stage::EotSent { attempt: 0 }),
        data.len() == c.total,
        c.max_retries > 0,
        c.char_ms > 0,
        now < u64::MAX,
        fuel >= 4,
    ensures
        willing_run(c, m, data, now, EventSpec::Written(None), fuel) == (
            seq![finish_block()],
            Seq::<usize>::empty(),
            Some(Outcome::Success),
            Model { stage: Stage::Idle, transition: Seq::empty(), trailing: m.trailing },
        ),
{
    let e = Seq::<u8>::empty();
    let dl = sat_add(now, eot_wait_ms(c));
    assert(dl > now);
    let m1 = Model {
        stage: Stage::EotWait { attempt: 0, deadline: dl, saw_ack: false, ack_seen: false, ack_seen_at: 0 },
        transition: e,
        trailing: m.trailing,
    };
    assert(step_spec(c, m, data, now, false, EventSpec::Written(None)) == (m1, ActionSpec::Read));
    let ac = seq![ACK, CRC_REQUEST];
    assert(ac.contains(ACK)) by {
        assert(ac[0] == ACK);
    }
    assert(ac.contains(CRC_REQUEST)) by {
        assert(ac[1] == CRC_REQUEST);
    }
    assert(!ac.contains(CAN)) by {
        assert forall|i: int| 0 <= i < ac.len() implies ac[i] != CAN by {}
    }
    assert(!ac.contains(NAK)) by {
        assert forall|i: int| 0 <= i < ac.len() implies ac[i] != NAK by {}
    }
    let m2 = Model { stage: Stage::FinishSent { attempt: 0 }, ..m1 };
    assert(step_spec(c, m1, data, now, false, EventSpec::Received(ac)) == (m2, ActionSpec::Write(finish_block())));
    let dl2 = sat_add(now, c.char_ms);
    assert(dl2 > now);
    let m3 = Model { stage: Stage::FinishWait { attempt: 0, deadline: dl2 }, ..m1 };
    assert(step_spec(c, m2, data, now, false, EventSpec::Written(None)) == (m3, ActionSpec::Read));
    let a = seq![ACK];
    assert(a.contains(ACK)) by {
        assert(a[0] == ACK);
    }
    assert(!a.contains(CAN)) by {
        assert forall|i: int| 0 <= i < a.len() implies a[i] != CAN by {}
    }
    assert(!a.contains(NAK)) by {
        assert forall|i: int| 0 <= i < a.len() implies a[i] != NAK by {}
    }
    assert(first_pos(a, ACK, 0) == 0);
    let mf = Model { stage: Stage::Idle, transition: e, trailing: m.trailing };
    assert(m.trailing + e + a.subrange(0, 0) + a.subrange(1, 1) =~= m.trailing);
    assert(step_spec(c, m3, data, now, false, EventSpec::Received(a)) == (mf, ActionSpec::Finished(Outcome::Success)));
    assert(willing_answer(m1, ActionSpec::Read) == EventSpec::Received(ac));
    assert(willing_answer(m3, ActionSpec::Read) == EventSpec::Received(a));
    assert(willing_run(c, m3, data, now, EventSpec::Received(a), (fuel - 3) as nat) == (
        Seq::<Seq<u8>>::empty(),
        Seq::<usize>::empty(),
        Some(Outcome::Success),
        mf,
    ));
    assert(willing_run(c, m2, data, now, EventSpec::Written(None), (fuel - 2) as nat) == willing_run(
        c,
        m3,
        data,
        now,
        EventSpec::Received(a),
        (fuel - 3) as nat,
    ));
    assert(willing_answer(m2, ActionSpec::Write(finish_block())) == EventSpec::Written(None));
    let x = willing_run(c, m2, data, now, EventSpec::Written(None), (fuel - 2) as nat);
    assert(willing_run(c, m1, data, now, EventSpec::Received(ac), (fuel - 1) as nat) == (
        seq![finish_block()] + x.0,
        x.1,
        x.2,
        x.3,
    ));
    assert(willing_run(c, m, data, now, EventSpec::Written(None), fuel) == willing_run(
        c,
        m1,
        data,
        now,
        EventSpec::Received(ac),
        (fuel - 1) as nat,
    ));
    assert(seq![finish_block()] + Seq::<Seq<u8>>::empty() =~= seq![finish_block()]);
}

/// A whole transfer to a receiver that accepts everything at once (it
/// sends the 'C' request, acknowledges every block, answers the EOT with an
/// ACK and a 'C', and acknowledges the finish block; see
/// [`willing_answer`]), run long enough with no cancellation: the session
/// writes the file information block, every data block in order, the EOT
/// and the finish block, reports after each data block where it ends, and
/// ends in success, handing on nothing new.
pub proof fn lemma_willing_transfer(c: Cfg, m: Model, data: Seq<u8>, now: u64, fuel: nat)
    requires
        m.stage == Stage::Start,
        data.len() == c.total,
        !c.wait_alone,
        c.max_retries > 0,
        c.char_ms > 0,
        c.c_ms > 0,
        now < u64::MAX,
        fuel >= 3 * n_blocks(c.total as nat) + 8,
    ensures
        willing_run(c, m, data, now, EventSpec::Ready, fuel) == (
            seq![block_of(c, data, 0)] + data_blocks_from(c, data, 1) + seq![seq![EOT], finish_block()],
            progress_from(c, 1),
            Some(Outcome::Success),
            Model { stage: Stage::Idle, transition: Seq::empty(), trailing: m.trailing },
        ),
{
    let n = n_blocks(c.total as nat);
    let dlc = sat_add(now, c.c_ms);
    assert(dlc > now);
    let m1 = at(m, Stage::WaitC { deadline: dlc });
    assert(step_spec(c, m, data, now, false, EventSpec::Ready) == (m1, ActionSpec::Read));
    let cr = seq![CRC_REQUEST];
    assert(cr.contains(CRC_REQUEST)) by {
        assert(cr[0] == CRC_REQUEST);
    }
    assert(willing_answer(m1, ActionSpec::Read) == EventSpec::Received(cr));
    let m2 = at(m, Stage::BlockSent { index: 0, attempt: 0 });
    assert(at(m1, m2.stage) == m2);
    assert(step_spec(c, m1, data, now, false, EventSpec::Received(cr)) == (m2, ActionSpec::Write(block_of(c, data, 0))));
    let dl = sat_add(now, c.char_ms);
    assert(dl > now);
    let m3 = at(m, Stage::BlockWait { index: 0, attempt: 0, deadline: dl, retry_seen: false, retry_seen_at: 0 });
    assert(at(m2, m3.stage) == m3);
    assert(step_spec(c, m2, data, now, false, EventSpec::Written(None)) == (m3, ActionSpec::Read));
    let ack = seq![ACK];
    assert(ack.contains(ACK)) by {
        assert(ack[0] == ACK);
    }
    assert(willing_answer(m3, ActionSpec::Read) == EventSpec::Received(ack));
    assert(willing_answer(m2, ActionSpec::Write(block_of(c, data, 0))) == EventSpec::Written(None));
    assert(willing_run(c, m, data, now, EventSpec::Ready, fuel) == willing_run(
        c,
        m1,
        data,
        now,
        EventSpec::Received(cr),
        (fuel - 1) as nat,
    ));
    let y = willing_run(c, m2, data, now, EventSpec::Written(None), (fuel - 2) as nat);
    assert(willing_run(c, m1, data, now, EventSpec::Received(cr), (fuel - 1) as nat) == (
        seq![block_of(c, data, 0)] + y.0,
        y.1,
        y.2,
        y.3,
    ));
    assert(y == willing_run(c, m3, data, now, EventSpec::Received(ack), (fuel - 3) as nat));
    let close = willing_run(c, at(m, Stage::EotSent { attempt: 0 }), data, now, EventSpec::Written(None), (fuel - 4 - 3 * n) as nat);
    lemma_willing_close(c, at(m, Stage::EotSent { attempt: 0 }), data, now, (fuel - 4 - 3 * n) as nat);
    if n == 0 {
        let m4 = at(m, Stage::EotSent { attempt: 0 });
        assert(at(m3, m4.stage) == m4);
        assert(step_spec(c, m3, data, now, false, EventSpec::Received(ack)) == (m4, ActionSpec::Write(seq![EOT])));
        assert(willing_answer(m4, ActionSpec::Write(seq![EOT])) == EventSpec::Written(None));
        assert(data_blocks_from(c, data, 1) == Seq::<Seq<u8>>::empty());
        assert(progress_from(c, 1) == Seq::<usize>::empty());
        assert(willing_run(c, m3, data, now, EventSpec::Received(ack), (fuel - 3) as nat) == (
            seq![seq![EOT]] + close.0,
            close.1,
            close.2,
            close.3,
        ));
        assert(seq![block_of(c, data, 0)] + (seq![seq![EOT]] + close.0) =~= seq![block_of(c, data, 0)] + data_blocks_from(
            c,
            data,
            1,
        ) + seq![seq![EOT], finish_block()]);
        assert(Seq::<usize>::empty() + close.1 =~= progress_from(c, 1));
    } else {
        let mb = at(m, Stage::BlockHead { index: 1, attempt: 0 });
        let m4 = at(m, Stage::BlockSent { index: 1, attempt: 0 });
        assert(at(m3, m4.stage) == m4);
        assert(at(mb, m4.stage) == m4);
        assert(step_spec(c, m3, data, now, false, EventSpec::Received(ack)) == (m4, ActionSpec::Write(block_of(c, data, 1))));
        assert(step_spec(c, mb, data, now, false, EventSpec::Ready) == (m4, ActionSpec::Write(block_of(c, data, 1))));
        assert(willing_answer(m4, ActionSpec::Write(block_of(c, data, 1))) == EventSpec::Written(None));
        let extra = (fuel - 4 - 3 * n) as nat;
        lemma_willing_blocks(c, mb, data, now, 1, extra);
        assert(at(mb, Stage::EotSent { attempt: 0 }) == at(m, Stage::EotSent { attempt: 0 }));
        let inner = willing_run(c, m4, data, now, EventSpec::Written(None), (fuel - 4) as nat);
        assert(willing_run(c, mb, data, now, EventSpec::Ready, (fuel - 3) as nat) == (
            seq![block_of(c, data, 1)] + inner.0,
            inner.1,
            inner.2,
            inner.3,
        ));
        assert(willing_run(c, m3, data, now, EventSpec::Received(ack), (fuel - 3) as nat) == willing_run(
            c,
            mb,
            data,
            now,
            EventSpec::Ready,
            (fuel - 3) as nat,
        ));
        assert(data_blocks_from(c, data, 1).push(seq![EOT]) + close.0 =~= data_blocks_from(c, data, 1) + seq![
            seq![EOT],
            finish_block(),
        ]);
        assert(progress_from(c, 1) + close.1 =~= progress_from(c, 1));
    }
}

/// A NAK of the EOT (with no CAN) never fails the transfer: while tries
/// remain and no ACK was seen, the EOT is written again as the next try;
/// otherwise the session goes on to its close (the finish block) or ends
/// in success.
pub proof fn lemma_eot_nak_resends(c: Cfg, m: Model, data: Seq<u8>, now: u64, chunk: Seq<u8>)
    requires
        data.len() == c.total,
        match m.stage {
            Stage::EotWait { attempt, .. } => attempt < c.max_retries,
            _ => false,
        },
        chunk.contains(NAK),
        !chunk.contains(CAN),
    ensures
        ({
            let (m2, a) = step_spec(c, m, data, now, false, EventSpec::Received(chunk));
            &&& (a matches ActionSpec::Finished(o) ==> o == Outcome::Success)
            &&& match m.stage {
                Stage::EotWait { attempt, saw_ack, .. } => !saw_ack && attempt + 1 < c.max_retries ==> a == ActionSpec::Write(
                    seq![EOT],
                ) && m2.stage == (Stage::EotSent { attempt: (attempt + 1) as u32 }),
                _ => true,
            }
        }),
{
    let j = choose|j: int| 0 <= j < chunk.len() && chunk[j] == NAK;
    assert(chunk.len() > 0);
}

} // verus!
