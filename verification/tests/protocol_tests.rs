use hisiflash::error::{Error, IoError, IoErrorKind};
use hisiflash::seboot::{contains_handshake_ack, CommandType, SebootAck, SebootFrame};
use hisiflash::ws63::{CommandFrame, ResponseFrame};
use hisiflash::ymodem::{
    build_block, YmodemAction, YmodemConfig, YmodemEvent, YmodemTransfer, ACK, CAN, CRC_REQUEST, NAK, READ_CHUNK,
    SOH, SOH_BLOCK_SIZE, STX, STX_BLOCK_SIZE,
};
use std::collections::VecDeque;
use std::time::Instant;

#[test]
fn test_command_type_reversed() {
    assert_eq!(CommandType::Handshake.reversed(), 0x0F);
    assert_eq!(CommandType::DownloadFlashImage.reversed(), 0x2D);
    assert_eq!(CommandType::Reset.reversed(), 0x78);
}

#[test]
fn test_contains_handshake_ack() {
    let mut data = vec![0x00, 0x00];
    data.extend_from_slice(&SebootAck::HANDSHAKE_ACK[..10]);
    data.extend_from_slice(&[0x00, 0x00]);
    assert!(contains_handshake_ack(&data));
}

#[test]
fn test_build_block_soh() {
    let data = [0x01, 0x02, 0x03];

    let block = build_block(1, &data, false);

    assert_eq!(block[0], SOH);
    assert_eq!(block[1], 1);
    assert_eq!(block[2], 0xFE);
    assert_eq!(block.len(), 3 + SOH_BLOCK_SIZE + 2);
}

#[test]
fn test_build_block_stx() {
    let data = vec![0xAA; STX_BLOCK_SIZE];

    let block = build_block(5, &data, true);

    assert_eq!(block[0], STX);
    assert_eq!(block[1], 5);
    assert_eq!(block[2], 0xFA);
    assert_eq!(block.len(), 3 + STX_BLOCK_SIZE + 2);
}

/// Simulated serial line: scripted reads, recorded writes.
struct MockSerial {
    read_chunks: VecDeque<Vec<u8>>,
    write_buf: Vec<u8>,
}

impl MockSerial {
    fn new(response: &[u8]) -> Self {
        Self::with_chunks(response.iter().map(|b| vec![*b]).collect::<Vec<_>>())
    }

    fn with_chunks<I: IntoIterator<Item = Vec<u8>>>(chunks: I) -> Self {
        Self { read_chunks: chunks.into_iter().collect(), write_buf: Vec::new() }
    }

    fn read(&mut self, max: usize) -> Result<Vec<u8>, IoError> {
        match self.read_chunks.pop_front() {
            None => Err(IoError::new(IoErrorKind::TimedOut, "no data".to_string())),
            Some(chunk) => {
                let n = max.min(chunk.len());
                if n < chunk.len() {
                    self.read_chunks.push_front(chunk[n..].to_vec());
                }
                Ok(chunk[..n].to_vec())
            },
        }
    }
}

/// Runs a transfer session against the simulated line.
fn run_transfer(
    port: &mut MockSerial,
    session: &mut YmodemTransfer,
    cancelled: bool,
    filename: &str,
    data: &[u8],
    progress: &mut dyn FnMut(usize, usize),
) -> Result<(), Error> {
    session.begin(filename, data.len());
    drive(port, session, cancelled, data, progress)
}

/// Waits for the receiver's first 'C' against the simulated line.
fn run_wait(port: &mut MockSerial, session: &mut YmodemTransfer, cancelled: bool) -> Result<(), Error> {
    session.begin_wait_for_c();
    drive(port, session, cancelled, &[], &mut |_, _| {})
}

/// Closes a session on its own against the simulated line.
fn run_finish(port: &mut MockSerial, session: &mut YmodemTransfer, cancelled: bool) -> Result<(), Error> {
    session.begin_finish();
    drive(port, session, cancelled, &[], &mut |_, _| {})
}

fn drive(
    port: &mut MockSerial,
    session: &mut YmodemTransfer,
    cancelled: bool,
    data: &[u8],
    progress: &mut dyn FnMut(usize, usize),
) -> Result<(), Error> {
    let start = Instant::now();
    let mut event = YmodemEvent::Ready;
    loop {
        let now = start.elapsed().as_millis() as u64;
        match session.step(data, now, cancelled, event) {
            YmodemAction::Write(bytes) => {
                port.write_buf.extend_from_slice(&bytes);
                event = YmodemEvent::Written(Ok(()));
            },
            YmodemAction::Read => {
                let got = match session.next_input() {
                    Some(chunk) => Ok(chunk),
                    None => port.read(READ_CHUNK),
                };
                event = YmodemEvent::Received(got);
            },
            YmodemAction::Progress { current, total } => {
                progress(current, total);
                event = YmodemEvent::Ready;
            },
            YmodemAction::Finished(result) => return result,
        }
    }
}

fn test_config(max_retries: u32, finish_without_c: bool) -> YmodemConfig {
    YmodemConfig {
        char_timeout_ms: 100,
        c_timeout_ms: 200,
        max_retries,
        finish_without_c,
        verbose: 0,
    }
}

#[test]
fn test_ymodem_transfer_single_c_wait() {
    let response = vec![CRC_REQUEST, ACK, ACK, ACK, ACK];
    let mut port = MockSerial::new(&response);
    let mut ymodem = YmodemTransfer::with_config(test_config(1, true));
    let test_data = vec![0x42; 100];
    let result = run_transfer(&mut port, &mut ymodem, false, "test.bin", &test_data, &mut |_, _| {});
    assert!(result.is_ok(), "single 'C' must be enough: {:?}", result.err());
}

#[test]
fn test_ymodem_no_c_before_finish() {
    let response = vec![CRC_REQUEST, ACK, ACK, ACK, ACK];
    let mut port = MockSerial::new(&response);
    let mut ymodem = YmodemTransfer::with_config(test_config(1, true));
    let test_data = vec![0x55; 50];
    let result = run_transfer(&mut port, &mut ymodem, false, "test.bin", &test_data, &mut |_, _| {});
    assert!(result.is_ok(), "no 'C' is needed before the finish block: {:?}", result.err());
}

#[test]
fn test_ymodem_transfer_exact_block_size() {
    let response = vec![CRC_REQUEST, ACK, ACK, ACK, ACK];
    let mut port = MockSerial::new(&response);
    let mut ymodem = YmodemTransfer::with_config(test_config(1, true));
    let test_data = vec![0xCC; STX_BLOCK_SIZE];
    let result = run_transfer(&mut port, &mut ymodem, false, "exact_block.bin", &test_data, &mut |_, _| {});
    assert!(result.is_ok(), "exactly 1024 bytes: {:?}", result.err());
}

#[test]
fn test_ymodem_transfer_multi_block() {
    let num_blocks = 3;
    let mut response = vec![CRC_REQUEST, ACK];
    response.extend(std::iter::repeat_n(ACK, num_blocks));
    response.push(ACK);
    response.push(ACK);

    let mut port = MockSerial::new(&response);
    let mut ymodem = YmodemTransfer::with_config(test_config(1, true));
    let test_data = vec![0xDD; STX_BLOCK_SIZE * num_blocks];
    let mut progress_calls = 0;
    let result = run_transfer(&mut port, &mut ymodem, false, "multi_block.bin", &test_data, &mut |current, total| {
        assert_eq!(total, STX_BLOCK_SIZE * num_blocks);
        assert!(current <= total);
        progress_calls += 1;
    });
    assert!(result.is_ok(), "multi-block transfer: {:?}", result.err());
    assert_eq!(progress_calls, num_blocks, "Progress should be called once per block");
}

#[test]
fn test_ymodem_transfer_accepts_ack_amid_noise() {
    let mut port = MockSerial::with_chunks([
        vec![CRC_REQUEST],
        b"ready for download\r\n\x06".to_vec(),
        b"log noise\x06".to_vec(),
        vec![CRC_REQUEST],
        vec![ACK],
    ]);
    let mut ymodem = YmodemTransfer::with_config(test_config(2, true));
    let test_data = vec![0xA5; 32];
    let result = run_transfer(&mut port, &mut ymodem, false, "noisy.bin", &test_data, &mut |_, _| {});
    assert!(result.is_ok(), "ACK amid log noise: {:?}", result.err());
}

#[test]
fn test_ymodem_skips_finish_without_c_when_configured() {
    let mut port = MockSerial::with_chunks([vec![CRC_REQUEST], vec![ACK], vec![ACK], vec![ACK]]);
    let mut ymodem = YmodemTransfer::with_config(test_config(1, false));
    let test_data = vec![0x5A; 32];
    let result = run_transfer(&mut port, &mut ymodem, false, "bs21e.bin", &test_data, &mut |_, _| {});
    assert!(result.is_ok(), "EOT ACK without 'C': {:?}", result.err());
}

#[test]
fn test_ymodem_transfer_retries_block_on_c_request() {
    let mut port = MockSerial::with_chunks([
        vec![CRC_REQUEST],
        vec![ACK],
        vec![CRC_REQUEST],
        vec![ACK],
        vec![ACK],
        vec![ACK],
    ]);
    let mut ymodem = YmodemTransfer::with_config(test_config(2, true));
    let test_data = vec![0x5A; 16];
    let result = run_transfer(&mut port, &mut ymodem, false, "retry.bin", &test_data, &mut |_, _| {});
    assert!(result.is_ok(), "'C' asks for the block again: {:?}", result.err());
}

#[test]
fn test_ymodem_handles_ack_and_c_in_same_eot_chunk() {
    let mut port = MockSerial::with_chunks([
        vec![CRC_REQUEST],
        vec![ACK],
        vec![ACK],
        vec![ACK, CRC_REQUEST],
        vec![ACK, 0xEF, 0xBE, 0xAD, 0xDE, 0x01],
    ]);
    let mut ymodem = YmodemTransfer::with_config(test_config(1, false));
    let test_data = vec![0x5A; 32];
    let result = run_transfer(&mut port, &mut ymodem, false, "bs21e.bin", &test_data, &mut |_, _| {});
    let trailing_data = ymodem.take_trailing_data();
    assert!(result.is_ok(), "ACK and 'C' in one read: {:?}", result.err());
    let finish_block = build_block(0, &[], false);
    assert!(port.write_buf.ends_with(&finish_block));
    assert_eq!(trailing_data, vec![0xEF, 0xBE, 0xAD, 0xDE, 0x01]);
}

#[test]
fn test_wait_for_c_interrupted_immediate() {
    let mut port = MockSerial::new(&[]);
    let mut ymodem = YmodemTransfer::with_config(test_config(1, true));
    let result = run_transfer(&mut port, &mut ymodem, true, "app.bin", &[], &mut |_, _| {});
    assert!(matches!(result, Err(Error::Io(ref io)) if io.kind == IoErrorKind::Interrupted));
}

#[test]
fn test_transfer_interrupted_before_start() {
    let mut port = MockSerial::new(&[]);
    let mut ymodem = YmodemTransfer::with_config(test_config(1, true));
    let result = run_transfer(&mut port, &mut ymodem, true, "app.bin", &[0x11, 0x22], &mut |_, _| {});
    assert!(matches!(result, Err(Error::Io(ref io)) if io.kind == IoErrorKind::Interrupted));
    assert!(port.write_buf.is_empty(), "Interrupted transfer should not write any YMODEM data");
}

#[test]
fn ymodem_receiver_cancel_is_a_transfer_error() {
    let mut port = MockSerial::with_chunks([vec![CRC_REQUEST], vec![CAN]]);
    let mut ymodem = YmodemTransfer::with_config(test_config(3, true));
    let result = run_transfer(&mut port, &mut ymodem, false, "x.bin", &[1, 2, 3], &mut |_, _| {});
    match result {
        Err(Error::Ymodem(msg)) => {
            assert_eq!(msg, "while sending YMODEM file info for x.bin: Transfer cancelled by receiver");
        },
        other => panic!("unexpected result {other:?}"),
    }
}

#[test]
fn ymodem_no_c_times_out() {
    let mut port = MockSerial::new(&[]);
    let mut ymodem = YmodemTransfer::with_config(test_config(1, true));
    let result = run_transfer(&mut port, &mut ymodem, false, "slow.bin", &[1], &mut |_, _| {});
    match result {
        Err(Error::Ymodem(msg)) => {
            assert_eq!(msg, "while waiting for receiver request for slow.bin: timeout: Timeout waiting for 'C'");
        },
        other => panic!("unexpected result {other:?}"),
    }
}

#[test]
fn ymodem_nak_exhausts_retries() {
    let mut port = MockSerial::with_chunks([vec![CRC_REQUEST], vec![ACK], vec![NAK], vec![NAK]]);
    let mut ymodem = YmodemTransfer::with_config(test_config(2, true));
    let data = vec![7u8; 2000];
    let result = run_transfer(&mut port, &mut ymodem, false, "d.bin", &data, &mut |_, _| {});
    match result {
        Err(Error::Ymodem(msg)) => {
            assert_eq!(
                msg,
                "while sending YMODEM data block 1 for d.bin at offset 0x00000000: Block transfer failed after 2 retries"
            );
        },
        other => panic!("unexpected result {other:?}"),
    }
}

#[test]
fn ymodem_blocks_carry_the_file_in_order() {
    let mut port = MockSerial::with_chunks([vec![CRC_REQUEST], vec![ACK], vec![ACK], vec![ACK], vec![ACK], vec![ACK]]);
    let mut ymodem = YmodemTransfer::with_config(test_config(1, true));
    let data: Vec<u8> = (0..1500u32).map(|i| (i % 251) as u8).collect();
    let result = run_transfer(&mut port, &mut ymodem, false, "f.bin", &data, &mut |_, _| {});
    assert!(result.is_ok());
    let info = build_block(0, b"f.bin\x001500\x00", false);
    let b1 = build_block(1, &data[..1024], true);
    let b2 = build_block(2, &data[1024..], true);
    let mut expected = Vec::new();
    expected.extend_from_slice(&info);
    expected.extend_from_slice(&b1);
    expected.extend_from_slice(&b2);
    assert!(port.write_buf.starts_with(&expected));
    assert_eq!(port.write_buf[expected.len()], 0x04);
}

#[test]
fn ymodem_block_crc_matches_known_value() {
    // CRC16-XMODEM of a block of 128 zero bytes is 0x0000; of "123456789"
    // padded with zeros it is the CRC of the padded payload.
    let block = build_block(0, &[], false);
    assert_eq!(block.len(), 133);
    assert_eq!(&block[131..], &[0x00, 0x00]);
    assert_eq!(hisiflash::crc::crc16_xmodem(b"123456789"), 0x31C3);
}

#[test]
fn ymodem_prefetched_input_is_read_first() {
    let mut port = MockSerial::with_chunks([vec![ACK], vec![ACK], vec![ACK], vec![ACK]]);
    let mut ymodem = YmodemTransfer::with_config(test_config(1, true)).with_prefetched_input(vec![CRC_REQUEST]);
    let result = run_transfer(&mut port, &mut ymodem, false, "p.bin", &[9; 10], &mut |_, _| {});
    assert!(result.is_ok(), "{:?}", result.err());
}

#[test]
fn test_handshake_frame_length() {
    let frame = SebootFrame::handshake(115200);
    let data = frame.build();
    // A handshake frame is 18 bytes.
    assert_eq!(data.len(), 18);
    assert_eq!(&data[0..4], &[0xEF, 0xBE, 0xAD, 0xDE]);
    assert_eq!(&data[4..6], &[0x12, 0x00]);
    assert_eq!(data[6], 0xF0);
    assert_eq!(data[7], 0x0F);
}

#[test]
fn test_download_flash_image_frame() {
    let frame = SebootFrame::download_flash_image(0x00800000, 0x1000, 0x1000, false);
    let data = frame.build();
    assert_eq!(data.len(), 24);
    assert_eq!(data[6], 0xD2);
    assert_eq!(data[7], 0x2D);
}

#[test]
fn test_erase_all_frame() {
    let frame = SebootFrame::erase_all();
    let data = frame.build();
    assert_eq!(&data[16..20], &[0xFF, 0xFF, 0xFF, 0xFF]);
}

#[test]
fn test_reset_frame() {
    let frame = SebootFrame::reset();
    let data = frame.build();
    assert_eq!(data.len(), 12);
    assert_eq!(data[6], 0x87);
    assert_eq!(data[7], 0x78);
}

#[test]
fn seboot_ack_frame_reads_back() {
    // An ACK frame as the device writes it: type 0xE1, result 0x5A, code 0.
    let mut frame = vec![0x55u8];
    frame.extend_from_slice(&[0xEF, 0xBE, 0xAD, 0xDE, 0x0C, 0x00, 0xE1, 0x1E, 0x5A, 0x00, 0x12, 0x34]);
    let parsed = SebootAck::parse(&frame).unwrap();
    assert_eq!(parsed.frame_type, 0xE1);
    assert_eq!(parsed.result, 0x5A);
    assert_eq!(parsed.error_code, 0x00);
    assert!(parsed.is_handshake_ack());
}

#[test]
fn ws63_frame_reads_back() {
    let built = CommandFrame::download(0x0080_0000, 0x1234, 0x2000).build();
    let mut noisy = vec![0x00, 0x11];
    noisy.extend_from_slice(&built);
    let parsed = ResponseFrame::parse(&noisy).unwrap();
    assert_eq!(parsed.cmd, 0xD2);
    assert_eq!(parsed.scmd, 0x2D);
    assert_eq!(parsed.data, vec![0x00, 0x00, 0x80, 0x00, 0x34, 0x12, 0x00, 0x00, 0x00, 0x20, 0x00, 0x00, 0x00, 0xFF]);
}

#[test]
fn ymodem_default_timeouts() {
    let d = YmodemConfig::default();
    assert_eq!(d.char_timeout_ms, 1000);
    assert_eq!(d.c_timeout_ms, 60000);
    assert_eq!(d.max_retries, 10);
    assert!(d.finish_without_c);
    assert_eq!(d.verbose, 0);
}

#[test]
fn finish_alone_keeps_bytes_after_the_ack() {
    let mut port = MockSerial::with_chunks([vec![ACK, 0xEF, 0xBE, 0xAD, 0xDE, 0x01]]);
    let mut ymodem = YmodemTransfer::new();
    assert!(run_finish(&mut port, &mut ymodem, false).is_ok());
    assert_eq!(port.write_buf, build_block(0, &[], false));
    assert_eq!(ymodem.take_trailing_data(), vec![0xEF, 0xBE, 0xAD, 0xDE, 0x01]);
    assert!(ymodem.take_trailing_data().is_empty());
}

#[test]
fn finish_alone_reports_a_cancelling_receiver() {
    let mut port = MockSerial::with_chunks([vec![CAN]]);
    let mut ymodem = YmodemTransfer::with_config(test_config(3, true));
    match run_finish(&mut port, &mut ymodem, false) {
        Err(Error::Ymodem(msg)) => assert_eq!(msg, "Transfer cancelled by receiver"),
        other => panic!("expected a YMODEM error, got {other:?}"),
    }
}

#[test]
fn finish_alone_reports_used_up_retries() {
    let mut port = MockSerial::new(&[]);
    let mut ymodem = YmodemTransfer::with_config(test_config(2, true));
    match run_finish(&mut port, &mut ymodem, false) {
        Err(Error::Ymodem(msg)) => assert_eq!(msg, "Block transfer failed after 2 retries"),
        other => panic!("expected a YMODEM error, got {other:?}"),
    }
    let block = build_block(0, &[], false);
    assert_eq!(port.write_buf.len(), 2 * block.len());
}

#[test]
fn finish_alone_stops_when_cancelled() {
    let mut port = MockSerial::new(&[]);
    let mut ymodem = YmodemTransfer::with_config(test_config(2, true));
    let result = run_finish(&mut port, &mut ymodem, true);
    assert!(matches!(result, Err(Error::Io(ref io)) if io.kind == IoErrorKind::Interrupted));
    assert!(port.write_buf.is_empty());
}

#[test]
fn transfer_ignores_a_cancelled_finish_block() {
    let mut port =
        MockSerial::with_chunks([vec![CRC_REQUEST], vec![ACK], vec![ACK], vec![ACK, CRC_REQUEST], vec![CAN]]);
    let mut ymodem = YmodemTransfer::with_config(test_config(1, false));
    let result = run_transfer(&mut port, &mut ymodem, false, "a.bin", &[1, 2, 3], &mut |_, _| {});
    assert!(result.is_ok());
}

#[test]
fn wait_for_c_alone_succeeds_on_a_request() {
    let mut port = MockSerial::with_chunks([vec![0x00, 0x15], vec![0x41, CRC_REQUEST], vec![ACK]]);
    let mut ymodem = YmodemTransfer::with_config(test_config(1, true));
    assert!(run_wait(&mut port, &mut ymodem, false).is_ok());
    assert!(port.write_buf.is_empty());
    // The chunk after the one holding the 'C' is left unread.
    assert_eq!(port.read_chunks.len(), 1);
}

#[test]
fn wait_for_c_alone_times_out() {
    let mut port = MockSerial::new(&[]);
    let mut ymodem = YmodemTransfer::with_config(test_config(1, true));
    match run_wait(&mut port, &mut ymodem, false) {
        Err(Error::Timeout(msg)) => assert_eq!(msg, "Timeout waiting for 'C'"),
        other => panic!("expected a timeout, got {other:?}"),
    }
    assert!(port.write_buf.is_empty());
}

#[test]
fn wait_for_c_alone_stops_when_cancelled() {
    let mut port = MockSerial::with_chunks([vec![CRC_REQUEST]]);
    let mut ymodem = YmodemTransfer::with_config(test_config(1, true));
    let result = run_wait(&mut port, &mut ymodem, true);
    assert!(matches!(result, Err(Error::Io(ref io)) if io.kind == IoErrorKind::Interrupted));
}
