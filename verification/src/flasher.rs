//! The decisions of the WS63 flasher: how failures are classified and
//! answered, how the handshake is paced, how the SEBOOT magic is spotted in
//! the byte stream, how download commands are sized, and which partitions
//! of a package are written.
//!
//! The flasher's loops (writing frames, reading answers, sleeping) run
//! outside the library; each of their decisions is taken here.
use crate::error::{error_text, Error, IoErrorKind, SerialErrorKind};
use crate::fwpkg::{Fwpkg, FwpkgBinInfo};
use crate::text::{ascii_lower_seq, bytes_contain, dec_text, hex_text, push_dec, push_hex, seq_contains_seq, str_contains, text_contains};
use crate::bytes::le32;
use crate::ws63::{contains_handshake_ack, ws63_has_ack, Command, CommandFrame};
use vstd::prelude::*;
use vstd::string::StringSliceAdditionalSpecFns;

verus! {

/// How often a connection is tried.
pub const MAX_CONNECT_ATTEMPTS: u32 = 7;

/// How often a binary download is tried.
pub const MAX_DOWNLOAD_RETRIES: u32 = 3;

/// Pause before the next try after a failed connection (milliseconds).
pub const CONNECT_RETRY_DELAY_MS: u64 = 500;

/// How many received bytes are kept to find an ACK split across reads.
pub const HANDSHAKE_CARRY_BYTES: usize = 128;

/// Received bytes after which the device is taken to run its application.
pub const APP_DETECT_THRESHOLD_BYTES: usize = 50;

/// How long the handshake is tried (milliseconds).
pub const HANDSHAKE_TIMEOUT_MS: u64 = 20_000;

/// Frames sent at once when a handshake attempt starts.
pub const INITIAL_HANDSHAKE_BURST_FRAMES: u32 = 4;

/// Frames sent at once after a read timed out early in the attempt.
pub const STARTUP_TIMEOUT_BURST_FRAMES: u32 = 2;

/// Whether an I/O failure of this kind means the connection is lost.
pub open spec fn lost_kind(k: IoErrorKind) -> bool {
    k == IoErrorKind::NotConnected || k == IoErrorKind::BrokenPipe || k == IoErrorKind::UnexpectedEof
}

/// Whether an I/O failure of this kind means the connection is lost (USB
/// disconnection).
pub fn is_connection_lost(kind: IoErrorKind) -> (r: bool)
    ensures
        r == lost_kind(kind),
{
    kind == IoErrorKind::NotConnected || kind == IoErrorKind::BrokenPipe || kind == IoErrorKind::UnexpectedEof
}

/// Whether an error is a port-level failure: a lost connection, or any
/// failure of the serial port library.
pub open spec fn port_failure(e: Error) -> bool {
    match e {
        Error::Io(io) => lost_kind(io.kind),
        Error::Serial(_) => true,
        _ => false,
    }
}

/// Whether an error is a port-level failure (see [`port_failure`]).
pub fn is_port_error(e: &Error) -> (r: bool)
    ensures
        r == port_failure(*e),
{
    match e {
        Error::Io(io) => is_connection_lost(io.kind),
        Error::Serial(_) => true,
        _ => false,
    }
}

/// Whether an error carries the I/O kind `k`, directly or from the serial
/// port library.
pub open spec fn has_io_kind(e: Error, k: IoErrorKind) -> bool {
    match e {
        Error::Io(io) => io.kind == k,
        Error::Serial(se) => se.kind == SerialErrorKind::Io(k),
        _ => false,
    }
}

/// Whether the user interrupted the operation.
pub fn is_interrupted_error(e: &Error) -> (r: bool)
    ensures
        r == has_io_kind(*e, IoErrorKind::Interrupted),
{
    match e {
        Error::Io(io) => io.kind == IoErrorKind::Interrupted,
        Error::Serial(se) => se.kind == SerialErrorKind::Io(IoErrorKind::Interrupted),
        _ => false,
    }
}

/// Whether the port could not be used for lack of permission.
pub fn is_permission_denied_error(e: &Error) -> (r: bool)
    ensures
        r == has_io_kind(*e, IoErrorKind::PermissionDenied),
{
    match e {
        Error::Io(io) => io.kind == IoErrorKind::PermissionDenied,
        Error::Serial(se) => se.kind == SerialErrorKind::Io(IoErrorKind::PermissionDenied),
        _ => false,
    }
}

/// The bytes of an ASCII text.
pub open spec fn ascii_of(s: Seq<char>) -> Seq<u8> {
    s.map_values(|c: char| c as u8)
}

/// Whether the lower-cased message of an error mentions `pattern`.
pub open spec fn message_mentions(e: Error, pattern: Seq<char>) -> bool {
    seq_contains_seq(ascii_lower_seq(vstd::utf8::encode_utf8(error_text(e))), vstd::utf8::encode_utf8(pattern))
}

/// Whether the port is busy: the message mentions "resource busy" or " busy".
pub open spec fn busy_failure(e: Error) -> bool {
    message_mentions(e, "resource busy"@) || message_mentions(e, " busy"@)
}

/// Whether the device is missing: the message mentions "not found" or "not
/// in boot mode".
pub open spec fn missing_failure(e: Error) -> bool {
    message_mentions(e, "not found"@) || message_mentions(e, "not in boot mode"@)
}

fn mentions(lower: &[u8], pattern: &str) -> (r: bool)
    ensures
        r == seq_contains_seq(lower@, pattern.spec_bytes()),
{
    bytes_contain(lower, pattern.as_bytes())
}

fn lowered_message(e: &Error) -> (r: Vec<u8>)
    ensures
        r@ == ascii_lower_seq(vstd::utf8::encode_utf8(error_text(*e))),
{
    let text = e.to_string();
    crate::chip::ascii_lowercase_bytes(text.as_str().as_bytes())
}

/// Whether the port is busy (see [`busy_failure`]).
pub fn is_busy_error(e: &Error) -> (r: bool)
    ensures
        r == busy_failure(*e),
{
    let lower = lowered_message(e);
    mentions(lower.as_slice(), "resource busy") || mentions(lower.as_slice(), " busy")
}

/// Whether the device is missing (see [`missing_failure`]).
pub fn is_device_not_found_error(e: &Error) -> (r: bool)
    ensures
        r == missing_failure(*e),
{
    let lower = lowered_message(e);
    mentions(lower.as_slice(), "not found") || mentions(lower.as_slice(), "not in boot mode")
}

/// How long to wait after reopening the port failed: 900 ms when it was
/// refused or busy, 650 ms when the device was missing, else `fallback_ms`.
pub fn reconnect_failure_delay(reopen_error: &Error, fallback_ms: u64) -> (r: u64)
    ensures
        r == (if has_io_kind(*reopen_error, IoErrorKind::PermissionDenied) || busy_failure(*reopen_error) {
            900u64
        } else if missing_failure(*reopen_error) {
            650u64
        } else {
            fallback_ms
        }),
{
    if is_permission_denied_error(reopen_error) || is_busy_error(reopen_error) {
        900
    } else if is_device_not_found_error(reopen_error) {
        650
    } else {
        fallback_ms
    }
}

/// Whether to reopen the port after a failed connection: only on
/// port-level failures.
pub fn should_attempt_reopen(e: &Error) -> (r: bool)
    ensures
        r == port_failure(*e),
{
    is_port_error(e)
}

/// How long to wait before the next connection try: 1800 ms when refused,
/// 1200 ms after a port-level failure, else 100 ms.
pub fn connect_retry_delay(e: &Error) -> (r: u64)
    ensures
        r == (if has_io_kind(*e, IoErrorKind::PermissionDenied) {
            1800u64
        } else if port_failure(*e) {
            1200u64
        } else {
            100u64
        }),
{
    if is_permission_denied_error(e) {
        1800
    } else if is_port_error(e) {
        1200
    } else {
        100
    }
}

/// Whether a failed download is tried again: unless the user interrupted.
pub fn should_retry_download_error(e: &Error) -> (r: bool)
    ensures
        r == !has_io_kind(*e, IoErrorKind::Interrupted),
{
    !is_interrupted_error(e)
}

/// What to do after connection try `attempt` (counted from 1) failed.
#[derive(Debug)]
pub enum ConnectStep {
    /// Give up with this error.
    GiveUp(Error),
    /// Reopen the port, then try again.
    Reopen,
    /// Wait this long (milliseconds), then try again.
    Wait(u64),
}

/// What to do after connection try `attempt` failed with `e`: an
/// interruption ends at once; before the last try, reopen the port after a
/// port-level failure, else wait; after the last, give up, reporting a port
/// that stayed lost as not connected.
pub fn after_connect_failure(attempt: u32, e: Error, port_name: &str) -> (r: ConnectStep)
    ensures
        has_io_kind(e, IoErrorKind::Interrupted) ==> r == ConnectStep::GiveUp(e),
        !has_io_kind(e, IoErrorKind::Interrupted) && attempt < MAX_CONNECT_ATTEMPTS ==> (if port_failure(e) {
            r is Reopen
        } else {
            r == ConnectStep::Wait(if has_io_kind(e, IoErrorKind::PermissionDenied) { 1800u64 } else { 100u64 })
        }),
        !has_io_kind(e, IoErrorKind::Interrupted) && attempt >= MAX_CONNECT_ATTEMPTS ==> (if port_failure(e) {
            r matches ConnectStep::GiveUp(Error::Io(io)) && io.kind == IoErrorKind::NotConnected
        } else {
            r == ConnectStep::GiveUp(e)
        }),
{
    if is_interrupted_error(&e) {
        return ConnectStep::GiveUp(e);
    }
    if attempt < MAX_CONNECT_ATTEMPTS {
        if should_attempt_reopen(&e) {
            ConnectStep::Reopen
        } else {
            ConnectStep::Wait(connect_retry_delay(&e))
        }
    } else if should_attempt_reopen(&e) {
        let mut msg = String::from_str("Port ");
        msg.append(port_name);
        msg.append(" is not connected. Auto-reconnect failed; please check USB cable and try again.");
        ConnectStep::GiveUp(Error::Io(crate::error::IoError::new(IoErrorKind::NotConnected, msg)))
    } else {
        ConnectStep::GiveUp(e)
    }
}

/// What to do after download try `attempt` (counted from 1) failed with
/// `e`: try again (after clearing the buffers and a pause) unless the user
/// interrupted or it was the last try.
pub fn retry_download(attempt: u32, e: &Error) -> (r: bool)
    ensures
        r == (!has_io_kind(*e, IoErrorKind::Interrupted) && attempt < MAX_DOWNLOAD_RETRIES),
{
    should_retry_download_error(e) && attempt < MAX_DOWNLOAD_RETRIES
}

/// How many times the flasher tries to reconnect after resetting the device.
pub const MAX_RESET_RECONNECT_ATTEMPTS: u32 = 10;

/// How long the device takes to come back on USB after a reset (milliseconds).
pub const RESET_ENUM_DELAY_MS: u64 = 1000;

/// What to do after reconnection try `attempt` (counted from 1) after a
/// reset failed with `e`: try again (after a pause) unless the user
/// interrupted or it was the last try.
pub fn retry_reconnect(attempt: u32, e: &Error) -> (r: bool)
    ensures
        r == (!has_io_kind(*e, IoErrorKind::Interrupted) && attempt < MAX_RESET_RECONNECT_ATTEMPTS),
{
    !is_interrupted_error(e) && attempt < MAX_RESET_RECONNECT_ATTEMPTS
}

/// The erase size for `len` bytes: `len` rounded up to a multiple of 4 KiB.
pub open spec fn erase_size_of(len: nat) -> nat {
    ((len + 0xFFF) / 0x1000) * 0x1000
}

/// The largest length whose erase size fits in 32 bits.
pub const MAX_ERASE_ALIGNED_LEN: u32 = 0xFFFF_F000;

/// The erase size for `len` bytes (see [`erase_size_of`]); `None` when it
/// does not fit in 32 bits (`len` above [`MAX_ERASE_ALIGNED_LEN`]).
pub fn erase_size(len: u32) -> (r: Option<u32>)
    ensures
        len <= MAX_ERASE_ALIGNED_LEN ==> r == Some(erase_size_of(len as nat) as u32),
        len > MAX_ERASE_ALIGNED_LEN ==> r is None,
{
    if len > MAX_ERASE_ALIGNED_LEN {
        return None;
    }
    let x: u32 = len + 0xFFF;
    let r = x & !0xFFFu32;
    assert(r == (x / 0x1000) * 0x1000) by (bit_vector)
        requires
            r == x & !0xFFFu32,
    ;
    Some(r)
}

/// The erase size covers the data, is a whole number of 4 KiB sectors, and
/// wastes less than one sector.
pub proof fn lemma_erase_size_covers(len: nat)
    ensures
        erase_size_of(len) % 0x1000 == 0,
        len <= erase_size_of(len) < len + 0x1000,
{
    let q = (len + 0xFFF) / 0x1000;
    vstd::arithmetic::div_mod::lemma_fundamental_div_mod((len + 0xFFF) as int, 0x1000);
    vstd::arithmetic::div_mod::lemma_mod_multiples_basic(q as int, 0x1000);
    assert(q * 0x1000 == 0x1000 * q) by (nonlinear_arith);
}

/// The download command for `len` bytes at `addr`, with the erase size the
/// length rounded up to 4 KiB. A length that does not fit in 32 bits is
/// refused ("Firmware too large ... > 4GB"), and so is one whose erase size
/// would not ("Firmware too large ... no room for 4KB erase alignment").
pub fn download_command(addr: u32, len: usize) -> (r: Result<CommandFrame, Error>)
    ensures
        len > u32::MAX ==> (r matches Err(Error::Protocol(m)) && m@ == "Firmware too large ("@ + dec_text(len as nat)
            + " bytes > 4GB)"@),
        MAX_ERASE_ALIGNED_LEN < len <= u32::MAX ==> (r matches Err(Error::Protocol(m)) && m@ == "Firmware too large ("@
            + dec_text(len as nat) + " bytes: no room for 4KB erase alignment)"@),
        len <= MAX_ERASE_ALIGNED_LEN ==> (r matches Ok(f) && f.kind() == Command::Download && f.payload() == le32(addr)
            + le32(len as u32) + le32(erase_size_of(len as nat) as u32) + seq![0u8, 0xFFu8]),
{
    if len > 0xFFFF_FFFF {
        let mut msg = String::from_str("Firmware too large (");
        push_dec(&mut msg, len as u64);
        msg.append(" bytes > 4GB)");
        return Err(Error::Protocol(msg));
    }
    let l = len as u32;
    match erase_size(l) {
        Some(e) => Ok(CommandFrame::download(addr, l, e)),
        None => {
            let mut msg = String::from_str("Firmware too large (");
            push_dec(&mut msg, len as u64);
            msg.append(" bytes: no room for 4KB erase alignment)");
            Err(Error::Protocol(msg))
        },
    }
}

/// Byte `i` of the SEBOOT magic as it arrives (0xDEADBEEF, little endian).
pub open spec fn magic_byte(i: int) -> u8 {
    if i == 0 {
        0xEF
    } else if i == 1 {
        0xBE
    } else if i == 2 {
        0xAD
    } else {
        0xDE
    }
}

/// The SEBOOT magic as it arrives.
pub open spec fn magic_seq() -> Seq<u8> {
    seq![0xEFu8, 0xBEu8, 0xADu8, 0xDEu8]
}

/// How many bytes of the magic are matched after one more byte `b`, with
/// `k` matched before (4 means found, and stays found).
pub open spec fn magic_step(k: nat, b: u8) -> nat {
    if k >= 4 {
        4
    } else if b == magic_byte(k as int) {
        k + 1
    } else if b == 0xEF {
        1
    } else {
        0
    }
}

/// How many bytes of the magic are matched after the bytes `s`.
pub open spec fn magic_state(s: Seq<u8>) -> nat
    decreases s.len(),
{
    if s.len() == 0 {
        0
    } else {
        magic_step(magic_state(s.drop_last()), s.last())
    }
}

/// Whether `s` ends with the first `k` bytes of the magic.
pub open spec fn ends_with_magic_prefix(s: Seq<u8>, k: int) -> bool {
    0 <= k <= s.len() && forall|j: int| 0 <= j < k ==> #[trigger] s[s.len() - k + j] == magic_byte(j)
}

proof fn lemma_prefix_step(s: Seq<u8>, m: int)
    requires
        s.len() > 0,
        0 <= m < 4,
    ensures
        ends_with_magic_prefix(s, m + 1) <==> (ends_with_magic_prefix(s.drop_last(), m) && s.last() == magic_byte(m)),
{
    let t = s.drop_last();
    if ends_with_magic_prefix(s, m + 1) {
        assert(s[s.len() - (m + 1) + m] == magic_byte(m));
        assert forall|j: int| 0 <= j < m implies #[trigger] t[t.len() - m + j] == magic_byte(j) by {
            assert(s[s.len() - (m + 1) + j] == magic_byte(j));
        }
    }
    if ends_with_magic_prefix(t, m) && s.last() == magic_byte(m) {
        assert forall|j: int| 0 <= j < m + 1 implies #[trigger] s[s.len() - (m + 1) + j] == magic_byte(j) by {
            if j < m {
                assert(t[t.len() - m + j] == magic_byte(j));
            }
        }
    }
}

proof fn lemma_magic_state_inv(s: Seq<u8>)
    ensures
        magic_state(s) <= 4,
        magic_state(s) == 4 <==> seq_contains_seq(s, magic_seq()),
        magic_state(s) < 4 ==> ends_with_magic_prefix(s, magic_state(s) as int),
        magic_state(s) < 4 ==> forall|k: int| magic_state(s) < k < 4 ==> !ends_with_magic_prefix(s, k),
    decreases s.len(),
{
    if s.len() == 0 {
        assert(!seq_contains_seq(s, magic_seq()));
        assert forall|k: int| 0 < k < 4 implies !ends_with_magic_prefix(s, k) by {}
    } else {
        let t = s.drop_last();
        let b = s.last();
        lemma_magic_state_inv(t);
        let k = magic_state(t);
        // Occurrences of the magic in `s` are those in `t` and one ending at the last byte.
        assert(seq_contains_seq(s, magic_seq()) <==> (seq_contains_seq(t, magic_seq()) || ends_with_magic_prefix(s, 4))) by {
            if seq_contains_seq(s, magic_seq()) {
                let i = choose|i: int| crate::text::occurs_at(s, magic_seq(), i);
                if i + 4 < s.len() {
                    assert(t.subrange(i, i + 4) =~= s.subrange(i, i + 4));
                    assert(crate::text::occurs_at(t, magic_seq(), i));
                } else {
                    assert forall|j: int| 0 <= j < 4 implies #[trigger] s[s.len() - 4 + j] == magic_byte(j) by {
                        assert(s.subrange(i, i + 4)[j] == magic_seq()[j]);
                    }
                }
            }
            if seq_contains_seq(t, magic_seq()) {
                let i = choose|i: int| crate::text::occurs_at(t, magic_seq(), i);
                assert(s.subrange(i, i + 4) =~= t.subrange(i, i + 4));
                assert(crate::text::occurs_at(s, magic_seq(), i));
            }
            if ends_with_magic_prefix(s, 4) {
                let i = s.len() - 4;
                assert(s.subrange(i, i + 4) =~= magic_seq()) by {
                    assert forall|j: int| 0 <= j < 4 implies s.subrange(i, i + 4)[j] == magic_seq()[j] by {
                        assert(s[s.len() - 4 + j] == magic_byte(j));
                    }
                }
                assert(crate::text::occurs_at(s, magic_seq(), i));
            }
        }
        if k < 4 {
            assert(!seq_contains_seq(t, magic_seq()));
            assert forall|m: int| 1 <= m < 4 && ends_with_magic_prefix(t, m) implies t[t.len() - 1] == magic_byte(
                m - 1,
            ) by {
                assert(t[t.len() - m + (m - 1)] == magic_byte(m - 1));
            }
            let k2 = magic_step(k, b);
            lemma_prefix_step(s, 0);
            lemma_prefix_step(s, 1);
            lemma_prefix_step(s, 2);
            lemma_prefix_step(s, 3);
            if b == magic_byte(k as int) {
                assert(k2 == k + 1);
                assert(ends_with_magic_prefix(s, k as int + 1));
                assert forall|m: int| k2 < m < 4 implies !ends_with_magic_prefix(s, m) by {
                    assert(!ends_with_magic_prefix(t, m - 1));
                }
                if k == 3 {
                    assert(ends_with_magic_prefix(s, 4));
                } else {
                    assert(!ends_with_magic_prefix(t, 3));
                    assert(!ends_with_magic_prefix(s, 4));
                }
            } else if b == 0xEF {
                assert(k2 == 1);
                assert(ends_with_magic_prefix(t, 0));
                assert(ends_with_magic_prefix(s, 1));
                assert forall|m: int| 1 < m <= 4 implies !ends_with_magic_prefix(s, m) by {
                    assert(b != magic_byte(m - 1));
                }
            } else {
                assert(k2 == 0);
                assert(ends_with_magic_prefix(s, 0));
                assert forall|m: int| 0 < m <= 4 implies !ends_with_magic_prefix(s, m) by {
                    if ends_with_magic_prefix(s, m) {
                        assert(ends_with_magic_prefix(t, m - 1) && b == magic_byte(m - 1));
                        if m - 1 == 0 {
                            assert(b == 0xEF);
                        } else if m - 1 < k {
                            assert(t[t.len() - 1] == magic_byte(m - 2));
                            assert(t[t.len() - 1] == magic_byte(k - 1));
                        } else if m - 1 > k {
                            assert(!ends_with_magic_prefix(t, m - 1));
                        }
                    }
                }
            }
        }
    }
}

/// The matcher finds the magic exactly when it occurs in the bytes seen:
/// after feeding `s`, all four bytes are matched if and only if `s` holds
/// the magic.
pub proof fn lemma_magic_found_iff_present(s: Seq<u8>)
    ensures
        (magic_state(s) == 4) == seq_contains_seq(s, magic_seq()),
{
    lemma_magic_state_inv(s);
}

/// Spots the SEBOOT magic in a byte stream, one byte at a time.
pub struct MagicMatcher {
    matched: u8,
}

impl MagicMatcher {
    /// How many bytes of the magic are matched.
    pub closed spec fn state(self) -> nat {
        self.matched as nat
    }

    /// A matcher that has seen nothing.
    pub fn new() -> (r: MagicMatcher)
        ensures
            r.state() == 0,
    {
        MagicMatcher { matched: 0 }
    }

    /// Takes in one byte; whether the magic is now complete.
    pub fn feed(&mut self, b: u8) -> (r: bool)
        requires
            old(self).state() <= 4,
        ensures
            final(self).state() == magic_step(old(self).state(), b),
            r == (final(self).state() == 4),
    {
        let magic: [u8; 4] = [0xEF, 0xBE, 0xAD, 0xDE];
        if self.matched >= 4 {
            return true;
        }
        assert(magic@[self.matched as int] == magic_byte(self.matched as int));
        if b == magic[self.matched as usize] {
            self.matched = self.matched + 1;
        } else if b == 0xEF {
            self.matched = 1;
        } else {
            self.matched = 0;
        }
        self.matched == 4
    }
}

/// What is kept of the received bytes to find an ACK split across reads:
/// the last `HANDSHAKE_CARRY_BYTES` of them.
pub open spec fn carried(merged: Seq<u8>) -> Seq<u8> {
    if merged.len() > HANDSHAKE_CARRY_BYTES {
        merged.subrange(merged.len() - HANDSHAKE_CARRY_BYTES, merged.len() as int)
    } else {
        merged
    }
}

/// Whether the bytes kept from before and `incoming` together hold a
/// handshake ACK; keeps the last bytes of both for the next read.
pub fn has_handshake_ack_with_carry(carry: &mut Vec<u8>, incoming: &[u8]) -> (r: bool)
    ensures
        r == ws63_has_ack(old(carry)@ + incoming@),
        final(carry)@ == carried(old(carry)@ + incoming@),
{
    let mut merged: Vec<u8> = Vec::new();
    let n0 = carry.len();
    copy_into(&mut merged, carry.as_slice(), 0, n0);
    let n1 = incoming.len();
    copy_into(&mut merged, incoming, 0, n1);
    assert(carry@.subrange(0, n0 as int) =~= carry@);
    assert(incoming@.subrange(0, n1 as int) =~= incoming@);
    let found = contains_handshake_ack(merged.as_slice());
    let m = merged.len();
    let mut kept: Vec<u8> = Vec::new();
    if m > HANDSHAKE_CARRY_BYTES {
        copy_into(&mut kept, merged.as_slice(), m - HANDSHAKE_CARRY_BYTES, m);
    } else {
        copy_into(&mut kept, merged.as_slice(), 0, m);
        assert(merged@.subrange(0, m as int) =~= merged@);
    }
    *carry = kept;
    found
}

fn copy_into(out: &mut Vec<u8>, s: &[u8], lo: usize, hi: usize)
    requires
        lo <= hi <= s@.len(),
    ensures
        final(out)@ == old(out)@ + s@.subrange(lo as int, hi as int),
{
    let ghost start = out@;
    let mut i = lo;
    while i < hi
        invariant
            lo <= i <= hi,
            hi <= s@.len(),
            out@ == start + s@.subrange(lo as int, i as int),
        decreases hi - i,
    {
        out.push(s[i]);
        i = i + 1;
        assert(out@ =~= start + s@.subrange(lo as int, i as int));
    }
}

/// Whether received bytes show that the boot loader is waiting for the
/// handshake: a lone '.' (its heartbeat), or "boot." somewhere.
pub open spec fn heartbeat_hint(incoming: Seq<u8>) -> bool {
    incoming == seq![0x2Eu8] || seq_contains_seq(incoming, seq![0x62u8, 0x6Fu8, 0x6Fu8, 0x74u8, 0x2Eu8])
}

/// Whether received bytes show that the boot loader is waiting for the
/// handshake (see [`heartbeat_hint`]).
pub fn has_bootloader_heartbeat_hint(incoming: &[u8]) -> (r: bool)
    ensures
        r == heartbeat_hint(incoming@),
{
    if incoming.len() == 1 && incoming[0] == 0x2E {
        assert(incoming@ =~= seq![0x2Eu8]);
        return true;
    }
    let boot: [u8; 5] = [0x62, 0x6F, 0x6F, 0x74, 0x2E];
    assert(boot@ =~= seq![0x62u8, 0x6Fu8, 0x6Fu8, 0x74u8, 0x2Eu8]);
    bytes_contain(incoming, boot.as_slice())
}

/// How a byte shows in a preview: printable ASCII and space as themselves,
/// anything else as '.'.
pub open spec fn preview_char(b: u8) -> char {
    if 0x20 <= b <= 0x7E {
        b as char
    } else {
        '.'
    }
}

/// The bytes in upper-case hexadecimal, separated by spaces.
pub open spec fn hex_list(s: Seq<u8>) -> Seq<char>
    decreases s.len(),
{
    if s.len() == 0 {
        Seq::empty()
    } else if s.len() == 1 {
        hex_text(s[0] as nat, 2)
    } else {
        hex_list(s.drop_last()) + seq![' '] + hex_text(s.last() as nat, 2)
    }
}

/// A preview of received bytes for the log: the first `max` bytes in hex
/// and as text, marked when cut, and the total count.
pub open spec fn raw_preview(data: Seq<u8>, max: nat) -> Seq<char> {
    let cut = data.len() > max;
    let p = if cut { data.subrange(0, max as int) } else { data };
    let ascii = p.map_values(|b: u8| preview_char(b));
    if cut {
        "hex=["@ + hex_list(p) + " ...] ascii='"@ + ascii + "...' total="@ + crate::text::dec_text(data.len())
    } else {
        "hex=["@ + hex_list(p) + "] ascii='"@ + ascii + "' total="@ + crate::text::dec_text(data.len())
    }
}

/// A preview of received bytes for the log (see [`raw_preview`]).
pub fn format_raw_preview(data: &[u8], max_bytes: usize) -> (r: String)
    ensures
        r@ == raw_preview(data@, max_bytes as nat),
{
    let cut = data.len() > max_bytes;
    let n = if cut { max_bytes } else { data.len() };
    let ghost p = data@.subrange(0, n as int);
    let mut hex = String::new();
    let mut ascii = String::new();
    let mut i: usize = 0;
    while i < n
        invariant
            i <= n,
            n <= data@.len(),
            p == data@.subrange(0, n as int),
            hex@ == hex_list(p.subrange(0, i as int)),
            ascii@ == p.subrange(0, i as int).map_values(|b: u8| preview_char(b)),
        decreases n - i,
    {
        let b = data[i];
        assert(p.subrange(0, i + 1).drop_last() =~= p.subrange(0, i as int));
        assert(p.subrange(0, i + 1).last() == b);
        if i > 0 {
            hex.push(' ');
        }
        push_hex(&mut hex, b as u64, 2);
        let c = if 0x20 <= b && b <= 0x7E { b as char } else { '.' };
        ascii.push(c);
        i = i + 1;
        assert(ascii@ =~= p.subrange(0, i as int).map_values(|b: u8| preview_char(b)));
    }
    assert(p.subrange(0, n as int) =~= p);
    proof {
        if !cut {
            assert(p =~= data@);
        }
    }
    let mut r = String::from_str("hex=[");
    r.append(hex.as_str());
    if cut {
        r.append(" ...] ascii='");
        r.append(ascii.as_str());
        r.append("...' total=");
    } else {
        r.append("] ascii='");
        r.append(ascii.as_str());
        r.append("' total=");
    }
    push_dec(&mut r, data.len() as u64);
    r
}

/// The names of a partition filter as texts.
pub open spec fn filter_texts(filter: Option<&[&str]>) -> Option<Seq<Seq<char>>> {
    match filter {
        None => None,
        Some(f) => Some(f@.map_values(|s: &str| s@)),
    }
}

/// Whether a partition passes a name filter (see [`selected_by`]).
pub open spec fn passes(filter: Option<Seq<Seq<char>>>) -> spec_fn(FwpkgBinInfo) -> bool {
    |b: FwpkgBinInfo| selected_by(b.name@, filter)
}

/// Whether a partition is not LoaderBoot.
pub open spec fn not_loader() -> spec_fn(FwpkgBinInfo) -> bool {
    |b: FwpkgBinInfo| b.partition_type != crate::fwpkg::PartitionType::Loader
}

/// Whether a partition is written under a name filter: always without one,
/// else when its name contains one of the filter's names.
pub open spec fn selected_by(name: Seq<char>, filter: Option<Seq<Seq<char>>>) -> bool {
    match filter {
        None => true,
        Some(names) => mentions_any(name, names),
    }
}

/// Whether `name` contains one of `names`.
pub open spec fn mentions_any(name: Seq<char>, names: Seq<Seq<char>>) -> bool {
    exists|i: int| 0 <= i < names.len() && #[trigger] text_contains(name, names[i])
}

/// Whether the partition `name` is written under `filter` (see
/// [`selected_by`]).
pub fn partition_selected(name: &str, filter: Option<&[&str]>) -> (r: bool)
    ensures
        r == selected_by(name@, filter_texts(filter)),
{
    match filter {
        None => true,
        Some(names) => {
            let ghost ns = filter_texts(filter)->0;
            assert(ns.len() == names@.len());
            let mut i: usize = 0;
            while i < names.len()
                invariant
                    i <= names@.len(),
                    filter == Some(names),
                    filter_texts(filter) == Some(ns),
                    ns.len() == names@.len(),
                    forall|j: int| 0 <= j < ns.len() ==> ns[j] == (#[trigger] names@[j])@,
                    forall|j: int| 0 <= j < i ==> !text_contains(name@, #[trigger] ns[j]),
                decreases names@.len() - i,
            {
                if str_contains(name, names[i]) {
                    assert(text_contains(name@, ns[i as int]));
                    assert(mentions_any(name@, ns));
                    return true;
                }
                i = i + 1;
            }
            false
        },
    }
}

/// The partitions of a package that are written after LoaderBoot: those
/// that are not LoaderBoot and pass the name filter, in package order.
pub fn partitions_to_flash<'a>(fwpkg: &'a Fwpkg, filter: Option<&[&str]>) -> (r: Vec<&'a FwpkgBinInfo>)
    ensures
        r@.map_values(|b: &FwpkgBinInfo| *b) == fwpkg.bin_list().filter(not_loader()).filter(passes(filter_texts(filter))),
{
    let normal = fwpkg.normal_bins();
    let ghost src = normal@.map_values(|b: &FwpkgBinInfo| *b);
    let ghost pred = passes(filter_texts(filter));
    assert(src == fwpkg.bin_list().filter(not_loader()));
    let mut r: Vec<&'a FwpkgBinInfo> = Vec::new();
    let mut i: usize = 0;
    while i < normal.len()
        invariant
            i <= normal@.len(),
            src == normal@.map_values(|b: &FwpkgBinInfo| *b),
            pred == passes(filter_texts(filter)),
            r@.map_values(|b: &FwpkgBinInfo| *b) == src.subrange(0, i as int).filter(pred),
        decreases normal@.len() - i,
    {
        proof {
            reveal_with_fuel(Seq::<_>::filter, 1);
            assert(src.subrange(0, i + 1).drop_last() =~= src.subrange(0, i as int));
        }
        let b = normal[i];
        let ghost before = r@;
        if partition_selected(b.name.as_str(), filter) {
            r.push(b);
            assert(r@.map_values(|b: &FwpkgBinInfo| *b) =~= before.map_values(|b: &FwpkgBinInfo| *b).push(src[i as int]));
        }
        i = i + 1;
    }
    assert(src.subrange(0, src.len() as int) =~= src);
    r
}

/// Time from `earlier` to `now`, zero when the clock went back.
pub open spec fn elapsed(now: u64, earlier: u64) -> u64 {
    if now >= earlier {
        (now - earlier) as u64
    } else {
        0
    }
}

fn elapsed_ms(now: u64, earlier: u64) -> (r: u64)
    ensures
        r == elapsed(now, earlier),
{
    if now >= earlier {
        now - earlier
    } else {
        0
    }
}

/// How long after the start of an attempt frames go out fastest (ms).
pub const STARTUP_AGGRESSIVE_WINDOW_MS: u64 = 3000;

/// Pause between frames in the startup window (ms).
pub const STARTUP_AGGRESSIVE_FRAME_INTERVAL_MS: u64 = 2;

/// Normal pause between frames (ms).
pub const HANDSHAKE_FRAME_INTERVAL_MS: u64 = 5;

/// Pause between frames while the boot loader's heartbeat was seen (ms).
pub const BOOT_DOT_FRAME_INTERVAL_MS: u64 = 2;

/// How long a heartbeat keeps the fast pace (ms).
pub const BOOT_DOT_BOOST_WINDOW_MS: u64 = 1200;

/// Frames sent back to back after a heartbeat.
pub const BOOT_HINT_BURST_FRAMES: u32 = 3;

/// Pause between frames of a burst (ms).
pub const BOOT_HINT_BURST_GAP_MS: u64 = 1;

/// Pause between frames while the application seems to run (ms).
pub const APP_MODE_FRAME_INTERVAL_MS: u64 = 200;

/// Quiet time on the line before probing a running application (ms).
pub const APP_MODE_TX_SILENCE_GUARD_MS: u64 = 250;

/// Pause between probes of a running application (ms).
pub const APP_MODE_PROBE_INTERVAL_MS: u64 = 1500;

/// How long after the application was seen only to listen (ms).
pub const APP_MODE_LISTEN_ONLY_GRACE_MS: u64 = 2000;

/// The state of a handshake attempt, as the contracts see it.
pub struct PacerModel {
    /// When the attempt started.
    pub start: u64,
    /// Received bytes kept to find an ACK split across reads.
    pub carry: Seq<u8>,
    /// Bytes received in all.
    pub total_rx: usize,
    /// Whether the device seems to run its application.
    pub app_detected: bool,
    /// Whether the user was told so.
    pub app_warned: bool,
    /// When the application was noticed.
    pub app_detected_at: Option<u64>,
    /// Until when the heartbeat keeps the fast pace.
    pub dot_boost_until: Option<u64>,
    /// Frames still to send back to back.
    pub burst_remaining: u32,
    /// When the last frame went out.
    pub last_tx: Option<u64>,
    /// When bytes last arrived.
    pub last_rx_at: u64,
}

/// What a read told the handshake.
#[derive(Debug, PartialEq, Eq, Structural)]
pub enum RxOutcome {
    /// The boot loader acknowledged the handshake.
    Acked,
    /// No acknowledgement yet; tell the user that the device seems to run
    /// its application when `app_mode_warning` is set.
    Pending { app_mode_warning: bool },
}

/// The handshake state after `data` arrived at `now`, and what it shows.
pub open spec fn received_spec(m: PacerModel, now: u64, data: Seq<u8>) -> (PacerModel, RxOutcome) {
    let merged = m.carry + data;
    let total = if m.total_rx + data.len() > usize::MAX { usize::MAX } else { (m.total_rx + data.len()) as usize };
    let m1 = PacerModel { carry: carried(merged), total_rx: total, last_rx_at: now, ..m };
    if ws63_has_ack(merged) {
        (m1, RxOutcome::Acked)
    } else {
        let hint = heartbeat_hint(data);
        let m2 = if hint {
            PacerModel {
                app_detected: false,
                app_detected_at: None,
                dot_boost_until: Some(crate::ymodem::sat_add(now, BOOT_DOT_BOOST_WINDOW_MS)),
                burst_remaining: if m1.burst_remaining < BOOT_HINT_BURST_FRAMES { BOOT_HINT_BURST_FRAMES } else { m1.burst_remaining },
                ..m1
            }
        } else {
            m1
        };
        if !m2.app_detected && m2.total_rx > APP_DETECT_THRESHOLD_BYTES {
            (
                PacerModel { app_detected: true, app_detected_at: Some(now), app_warned: true, ..m2 },
                RxOutcome::Pending { app_mode_warning: !m2.app_warned },
            )
        } else {
            (m2, RxOutcome::Pending { app_mode_warning: false })
        }
    }
}

/// Whether a handshake frame goes out at `now`, the loop round having
/// started at `head`: bursts and the startup window go fastest, then the
/// heartbeat window, then the normal pace; while the application seems to
/// run (and nothing faster applies) frames go out only after the listening
/// grace, when the line was quiet and the last probe is long enough ago.
pub open spec fn probe_spec(m: PacerModel, head: u64, now: u64) -> bool {
    let in_startup = elapsed(head, m.start) < STARTUP_AGGRESSIVE_WINDOW_MS;
    let in_dot = m.dot_boost_until matches Some(u) && now < u;
    let in_burst = m.burst_remaining > 0;
    let interval = if in_burst {
        BOOT_HINT_BURST_GAP_MS
    } else if in_startup {
        STARTUP_AGGRESSIVE_FRAME_INTERVAL_MS
    } else if in_dot {
        BOOT_DOT_FRAME_INTERVAL_MS
    } else if m.app_detected {
        APP_MODE_FRAME_INTERVAL_MS
    } else {
        HANDSHAKE_FRAME_INTERVAL_MS
    };
    let sparse_ok = !(m.app_detected && !in_dot && !in_burst && !in_startup) || ({
        let in_grace = m.app_detected_at matches Some(t0) && elapsed(now, t0) < APP_MODE_LISTEN_ONLY_GRACE_MS;
        let rx_quiet = elapsed(now, m.last_rx_at) >= APP_MODE_TX_SILENCE_GUARD_MS;
        let probe_due = match m.last_tx {
            Some(last) => elapsed(now, last) >= APP_MODE_PROBE_INTERVAL_MS,
            None => true,
        };
        !in_grace && rx_quiet && probe_due
    });
    let paced = match m.last_tx {
        Some(last) => elapsed(now, last) >= interval,
        None => true,
    };
    sparse_ok && paced
}

/// The pacing of one handshake attempt: it watches what arrives and says
/// when the next handshake frame goes out.
pub struct HandshakePacer {
    start: u64,
    carry: Vec<u8>,
    total_rx: usize,
    app_detected: bool,
    app_warned: bool,
    app_detected_at: Option<u64>,
    dot_boost_until: Option<u64>,
    burst_remaining: u32,
    last_tx: Option<u64>,
    last_rx_at: u64,
}

impl HandshakePacer {
    /// The state of the attempt.
    pub closed spec fn model(self) -> PacerModel {
        PacerModel {
            start: self.start,
            carry: self.carry@,
            total_rx: self.total_rx,
            app_detected: self.app_detected,
            app_warned: self.app_warned,
            app_detected_at: self.app_detected_at,
            dot_boost_until: self.dot_boost_until,
            burst_remaining: self.burst_remaining,
            last_tx: self.last_tx,
            last_rx_at: self.last_rx_at,
        }
    }

    /// An attempt that starts at `now`.
    pub fn new(now: u64) -> (r: HandshakePacer)
        ensures
            r.model() == (PacerModel {
                start: now,
                carry: Seq::empty(),
                total_rx: 0,
                app_detected: false,
                app_warned: false,
                app_detected_at: None,
                dot_boost_until: None,
                burst_remaining: 0,
                last_tx: None,
                last_rx_at: now,
            }),
    {
        let r = HandshakePacer {
            start: now,
            carry: Vec::new(),
            total_rx: 0,
            app_detected: false,
            app_warned: false,
            app_detected_at: None,
            dot_boost_until: None,
            burst_remaining: 0,
            last_tx: None,
            last_rx_at: now,
        };
        assert(r.carry@ =~= Seq::<u8>::empty());
        r
    }

    /// Whether the attempt has run out of time at `now`.
    pub fn timed_out(&self, now: u64) -> (r: bool)
        ensures
            r == (elapsed(now, self.model().start) >= HANDSHAKE_TIMEOUT_MS),
    {
        elapsed_ms(now, self.start) >= HANDSHAKE_TIMEOUT_MS
    }

    /// Whether `now` lies in the startup window of the attempt.
    pub fn in_startup_window(&self, now: u64) -> (r: bool)
        ensures
            r == (elapsed(now, self.model().start) < STARTUP_AGGRESSIVE_WINDOW_MS),
    {
        elapsed_ms(now, self.start) < STARTUP_AGGRESSIVE_WINDOW_MS
    }

    /// How many handshake frames to send at once after a read that timed
    /// out at `now`: [`STARTUP_TIMEOUT_BURST_FRAMES`] early in the attempt
    /// (see [`HandshakePacer::in_startup_window`]), none later.
    pub fn timeout_burst_frames(&self, now: u64) -> (r: u32)
        ensures
            r == (if elapsed(now, self.model().start) < STARTUP_AGGRESSIVE_WINDOW_MS {
                STARTUP_TIMEOUT_BURST_FRAMES
            } else {
                0
            }),
    {
        if self.in_startup_window(now) {
            STARTUP_TIMEOUT_BURST_FRAMES
        } else {
            0
        }
    }

    /// Bytes received in all.
    pub fn total_received(&self) -> (r: usize)
        ensures
            r == self.model().total_rx,
    {
        self.total_rx
    }

    /// Takes in bytes that arrived at `now` (see [`received_spec`]).
    pub fn on_received(&mut self, now: u64, data: &[u8]) -> (r: RxOutcome)
        ensures
            (final(self).model(), r) == received_spec(old(self).model(), now, data@),
    {
        self.last_rx_at = now;
        self.total_rx = self.total_rx.saturating_add(data.len());
        if has_handshake_ack_with_carry(&mut self.carry, data) {
            return RxOutcome::Acked;
        }
        if has_bootloader_heartbeat_hint(data) {
            self.app_detected = false;
            self.app_detected_at = None;
            self.dot_boost_until = Some(now.saturating_add(BOOT_DOT_BOOST_WINDOW_MS));
            if self.burst_remaining < BOOT_HINT_BURST_FRAMES {
                self.burst_remaining = BOOT_HINT_BURST_FRAMES;
            }
        }
        if !self.app_detected && self.total_rx > APP_DETECT_THRESHOLD_BYTES {
            let warn = !self.app_warned;
            self.app_detected = true;
            self.app_detected_at = Some(now);
            self.app_warned = true;
            RxOutcome::Pending { app_mode_warning: warn }
        } else {
            RxOutcome::Pending { app_mode_warning: false }
        }
    }

    /// Whether a handshake frame goes out at `now`, the loop round having
    /// started at `head` (see [`probe_spec`]).
    pub fn should_probe(&self, head: u64, now: u64) -> (r: bool)
        ensures
            r == probe_spec(self.model(), head, now),
    {
        let in_startup = elapsed_ms(head, self.start) < STARTUP_AGGRESSIVE_WINDOW_MS;
        let in_dot = match self.dot_boost_until {
            Some(u) => now < u,
            None => false,
        };
        let in_burst = self.burst_remaining > 0;
        let interval = if in_burst {
            BOOT_HINT_BURST_GAP_MS
        } else if in_startup {
            STARTUP_AGGRESSIVE_FRAME_INTERVAL_MS
        } else if in_dot {
            BOOT_DOT_FRAME_INTERVAL_MS
        } else if self.app_detected {
            APP_MODE_FRAME_INTERVAL_MS
        } else {
            HANDSHAKE_FRAME_INTERVAL_MS
        };
        if self.app_detected && !in_dot && !in_burst && !in_startup {
            let in_grace = match self.app_detected_at {
                Some(t0) => elapsed_ms(now, t0) < APP_MODE_LISTEN_ONLY_GRACE_MS,
                None => false,
            };
            if in_grace {
                return false;
            }
            let rx_quiet = elapsed_ms(now, self.last_rx_at) >= APP_MODE_TX_SILENCE_GUARD_MS;
            let probe_due = match self.last_tx {
                Some(last) => elapsed_ms(now, last) >= APP_MODE_PROBE_INTERVAL_MS,
                None => true,
            };
            if !(rx_quiet && probe_due) {
                return false;
            }
        }
        match self.last_tx {
            Some(last) => elapsed_ms(now, last) >= interval,
            None => true,
        }
    }

    /// A paced frame went out at `now`: one burst frame less.
    pub fn on_probe_sent(&mut self, now: u64)
        ensures
            final(self).model() == (PacerModel {
                last_tx: Some(now),
                burst_remaining: if old(self).model().burst_remaining > 0 { (old(self).model().burst_remaining - 1) as u32 } else { 0 },
                ..old(self).model()
            }),
    {
        self.last_tx = Some(now);
        self.burst_remaining = self.burst_remaining.saturating_sub(1);
    }

    /// A frame of a startup burst went out at `now`.
    pub fn on_burst_frame_sent(&mut self, now: u64)
        ensures
            final(self).model() == (PacerModel { last_tx: Some(now), ..old(self).model() }),
    {
        self.last_tx = Some(now);
    }

    /// The error the attempt ends with when it runs out of time.
    pub fn timeout_error(&self) -> (r: Error)
        ensures
            r matches Error::Timeout(m) && m@ == "No response after "@ + dec_text((HANDSHAKE_TIMEOUT_MS / 1000) as nat)
                + " seconds"@,
    {
        let mut msg = String::from_str("No response after ");
        push_dec(&mut msg, HANDSHAKE_TIMEOUT_MS / 1000);
        msg.append(" seconds");
        Error::Timeout(msg)
    }
}

/// Whether a failed write, flush or read during the handshake ends the
/// attempt: when the user interrupted or the connection is lost; other
/// failures are ignored.
pub fn ends_handshake(kind: IoErrorKind) -> (r: bool)
    ensures
        r == (kind == IoErrorKind::Interrupted || lost_kind(kind)),
{
    kind == IoErrorKind::Interrupted || is_connection_lost(kind)
}

/// A handshake frame goes out at most once per pacing interval: whatever
/// the state, no frame is due sooner than 1 ms after the last one.
pub proof fn lemma_probe_spacing(m: PacerModel, head: u64, now: u64)
    requires
        m.last_tx matches Some(last) && elapsed(now, last) < BOOT_HINT_BURST_GAP_MS,
    ensures
        !probe_spec(m, head, now),
{
}

/// While the application seems to run and nothing faster applies, the
/// line is only probed when it was quiet for 250 ms.
pub proof fn lemma_app_mode_waits_for_quiet(m: PacerModel, head: u64, now: u64)
    requires
        m.app_detected,
        m.burst_remaining == 0,
        elapsed(head, m.start) >= STARTUP_AGGRESSIVE_WINDOW_MS,
        !(m.dot_boost_until matches Some(u) && now < u),
        elapsed(now, m.last_rx_at) < APP_MODE_TX_SILENCE_GUARD_MS,
    ensures
        !probe_spec(m, head, now),
{
}

} // verus!
