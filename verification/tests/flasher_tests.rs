use hisiflash::chip::{ChipConfig, ChipFamily};
use hisiflash::config::Config;
use hisiflash::error::{Error, IoError, IoErrorKind, SerialError, SerialErrorKind};
use hisiflash::firmware::{compute_priority, FirmwareCandidate};
use hisiflash::flasher::{
    after_connect_failure, connect_retry_delay, download_command, erase_size, format_raw_preview,
    has_bootloader_heartbeat_hint, has_handshake_ack_with_carry, is_interrupted_error, is_permission_denied_error,
    is_port_error, partition_selected, reconnect_failure_delay, retry_download, retry_reconnect, should_attempt_reopen,
    should_retry_download_error, ConnectStep, HandshakePacer, MagicMatcher, RxOutcome,
};
use hisiflash::monitor::format_monitor_output_at;
use hisiflash::selection::{choose_port, find_port_by_name, select_non_interactive_port, PortChoice, SerialOptions};
use hisiflash::device::{DetectedPort, DeviceKind, TransportKind};
use hisiflash::cli::{library_exit_code, CliError, Chip};
use hisiflash::ws63::HANDSHAKE_ACK;

fn io(kind: IoErrorKind, msg: &str) -> Error {
    Error::Io(IoError::new(kind, msg.to_string()))
}

fn serial(kind: SerialErrorKind, msg: &str) -> Error {
    Error::Serial(SerialError { kind, description: msg.to_string() })
}

#[test]
fn test_is_port_error_for_io_kinds() {
    assert!(is_port_error(&io(IoErrorKind::NotConnected, "not connected")));
    assert!(is_port_error(&io(IoErrorKind::BrokenPipe, "broken pipe")));
    assert!(!is_port_error(&io(IoErrorKind::TimedOut, "timeout")));
}

#[test]
fn test_is_interrupted_error_for_io_interrupted() {
    assert!(is_interrupted_error(&io(IoErrorKind::Interrupted, "interrupted")));
    assert!(!is_interrupted_error(&io(IoErrorKind::TimedOut, "timeout")));
    assert!(is_interrupted_error(&serial(SerialErrorKind::Io(IoErrorKind::Interrupted), "serial interrupted")));
}

#[test]
fn test_should_retry_download_error_interrupted_false() {
    assert!(!should_retry_download_error(&io(IoErrorKind::Interrupted, "interrupted")));
    assert!(should_retry_download_error(&io(IoErrorKind::TimedOut, "timeout")));
}

#[test]
fn test_is_permission_denied_error_for_io_and_serial() {
    assert!(is_permission_denied_error(&io(IoErrorKind::PermissionDenied, "permission denied")));
    assert!(is_permission_denied_error(&serial(
        SerialErrorKind::Io(IoErrorKind::PermissionDenied),
        "serial permission denied"
    )));
}

#[test]
fn test_reconnect_failure_delay_for_busy_and_not_found() {
    let fallback = 100;
    let busy = serial(SerialErrorKind::Unknown, "Device or resource busy");
    assert_eq!(reconnect_failure_delay(&busy, fallback), 900);
    let not_found = Error::Config("Device not found or not in boot mode".into());
    assert_eq!(reconnect_failure_delay(&not_found, fallback), 650);
    let other = Error::Protocol("bad frame".into());
    assert_eq!(reconnect_failure_delay(&other, fallback), fallback);
}

#[test]
fn test_should_attempt_reopen_for_port_errors_only() {
    assert!(!should_attempt_reopen(&Error::Timeout("timeout".into())));
    assert!(should_attempt_reopen(&io(IoErrorKind::BrokenPipe, "broken pipe")));
    assert!(!should_attempt_reopen(&Error::Protocol("bad frame".into())));
}

#[test]
fn test_connect_retry_delay_by_error_type() {
    assert_eq!(connect_retry_delay(&Error::Timeout("timeout".into())), 100);
    assert_eq!(connect_retry_delay(&io(IoErrorKind::BrokenPipe, "broken pipe")), 1200);
    assert_eq!(connect_retry_delay(&io(IoErrorKind::PermissionDenied, "permission denied")), 1800);
}

#[test]
fn test_has_handshake_ack_with_carry_detects_split_ack() {
    let mut carry = Vec::new();
    let split = 4;
    let first = &HANDSHAKE_ACK[..split];
    let second = &HANDSHAKE_ACK[split..];
    assert!(!has_handshake_ack_with_carry(&mut carry, first));
    assert!(has_handshake_ack_with_carry(&mut carry, second));
}

#[test]
fn test_format_raw_preview_truncates_and_formats() {
    let input = b"ABC\x01\x02xyz";
    let preview = format_raw_preview(input, 4);
    assert!(preview.contains("hex=[41 42 43 01 ...]"));
    assert!(preview.contains("ascii='ABC....'") || preview.contains("ascii='ABC.'"));
    assert!(preview.contains("total=8"));
    assert_eq!(format_raw_preview(b"hi", 8), "hex=[68 69] ascii='hi' total=2");
}

#[test]
fn carry_keeps_only_the_last_bytes() {
    let mut carry = Vec::new();
    let noise = vec![0x11u8; 300];
    assert!(!has_handshake_ack_with_carry(&mut carry, &noise));
    assert_eq!(carry.len(), 128);
}

#[test]
fn heartbeat_hints() {
    assert!(has_bootloader_heartbeat_hint(b"."));
    assert!(has_bootloader_heartbeat_hint(b"xx boot.\r\n"));
    assert!(!has_bootloader_heartbeat_hint(b".."));
    assert!(!has_bootloader_heartbeat_hint(b"reboot"));
}

#[test]
fn erase_size_rounds_up_to_sectors() {
    assert_eq!(erase_size(0), Some(0));
    assert_eq!(erase_size(1), Some(0x1000));
    assert_eq!(erase_size(0x1000), Some(0x1000));
    assert_eq!(erase_size(0x1001), Some(0x2000));
    assert_eq!(erase_size(0xFFFF_F000), Some(0xFFFF_F000));
    assert_eq!(erase_size(0xFFFF_F001), None);
}

#[test]
fn download_command_frame_and_size_limit() {
    let frame = download_command(0x0080_0000, 0x1234).unwrap();
    let bytes = frame.build();
    // payload: addr, len, erase size, 0x00 0xFF
    assert_eq!(&bytes[8..12], &[0x00, 0x00, 0x80, 0x00]);
    assert_eq!(&bytes[12..16], &[0x34, 0x12, 0x00, 0x00]);
    assert_eq!(&bytes[16..20], &[0x00, 0x20, 0x00, 0x00]);
    assert_eq!(&bytes[20..22], &[0x00, 0xFF]);
    let err = download_command(0, usize::MAX).unwrap_err();
    assert!(matches!(err, Error::Protocol(_)));
    match download_command(0, 0xFFFF_F001) {
        Err(Error::Protocol(m)) => assert_eq!(m, "Firmware too large (4294963201 bytes: no room for 4KB erase alignment)"),
        other => panic!("expected a refusal, got {other:?}"),
    }
}

#[test]
fn magic_matcher_finds_magic_after_partial_match() {
    let mut m = MagicMatcher::new();
    let stream = [0x00, 0xEF, 0xBE, 0xEF, 0xBE, 0xAD, 0xDE, 0x01];
    let mut found_at = None;
    for (i, b) in stream.iter().enumerate() {
        if m.feed(*b) {
            found_at = Some(i);
            break;
        }
    }
    assert_eq!(found_at, Some(6));
}

#[test]
fn connect_failure_steps() {
    match after_connect_failure(1, io(IoErrorKind::Interrupted, "x"), "/dev/ttyUSB0") {
        ConnectStep::GiveUp(Error::Io(e)) => assert_eq!(e.kind, IoErrorKind::Interrupted),
        other => panic!("{other:?}"),
    }
    assert!(matches!(after_connect_failure(1, io(IoErrorKind::BrokenPipe, "x"), "p"), ConnectStep::Reopen));
    assert!(matches!(after_connect_failure(2, Error::Timeout("t".into()), "p"), ConnectStep::Wait(100)));
    match after_connect_failure(7, io(IoErrorKind::BrokenPipe, "x"), "/dev/ttyUSB0") {
        ConnectStep::GiveUp(Error::Io(e)) => {
            assert_eq!(e.kind, IoErrorKind::NotConnected);
            assert!(e.message.contains("/dev/ttyUSB0"));
        },
        other => panic!("{other:?}"),
    }
    assert!(matches!(after_connect_failure(7, Error::Timeout("t".into()), "p"), ConnectStep::GiveUp(Error::Timeout(_))));
}

#[test]
fn download_retry_policy() {
    assert!(retry_download(1, &Error::Timeout("t".into())));
    assert!(retry_download(2, &Error::Timeout("t".into())));
    assert!(!retry_download(3, &Error::Timeout("t".into())));
    assert!(!retry_download(1, &io(IoErrorKind::Interrupted, "x")));
}

#[test]
fn pacer_acknowledges_and_paces() {
    let mut p = HandshakePacer::new(1000);
    assert!(p.should_probe(1000, 1000));
    p.on_probe_sent(1000);
    assert!(!p.should_probe(1001, 1001));
    assert!(p.should_probe(1002, 1002));
    assert_eq!(p.on_received(1003, b"."), RxOutcome::Pending { app_mode_warning: false });
    assert_eq!(p.on_received(1004, &HANDSHAKE_ACK), RxOutcome::Acked);
    assert!(!p.timed_out(20_999));
    assert!(p.timed_out(21_000));
}

#[test]
fn pacer_warns_once_about_application_mode() {
    let mut p = HandshakePacer::new(0);
    let noise = vec![b'x'; 60];
    assert_eq!(p.on_received(3000, &noise), RxOutcome::Pending { app_mode_warning: true });
    assert_eq!(p.on_received(3010, &noise), RxOutcome::Pending { app_mode_warning: false });
    // in the listening grace after the startup window nothing is sent
    assert!(!p.should_probe(3500, 3500));
    // after the grace, with a quiet line, a probe goes out
    assert!(p.should_probe(5100, 5100));
}

#[test]
fn partition_filter_by_name() {
    assert!(partition_selected("app", None));
    assert!(partition_selected("app_flash", Some(&["flash", "nv"])));
    assert!(!partition_selected("app", Some(&["flash", "nv"])));
    assert!(!partition_selected("app", Some(&[])));
}

#[test]
fn error_messages() {
    assert_eq!(Error::CrcMismatch { expected: 0x1a2b, actual: 0x00ff }.to_string(), "CRC mismatch: expected 0x1a2b, got 0x00ff");
    assert_eq!(Error::DeviceNotFound.to_string(), "Device not found or not in boot mode");
    assert_eq!(io(IoErrorKind::Other, "boom").to_string(), "I/O error: boom");
}

#[test]
fn exit_codes() {
    assert_eq!(CliError::Usage("u".into()).exit_code(), 2);
    assert_eq!(CliError::Config("c".into()).exit_code(), 3);
    assert_eq!(CliError::Cancelled("cancelled".into()).exit_code(), 130);
    assert_eq!(library_exit_code(&Error::DeviceNotFound), 4);
    assert_eq!(library_exit_code(&Error::Config("x".into())), 3);
    assert_eq!(library_exit_code(&Error::Unsupported("x".into())), 5);
    assert_eq!(library_exit_code(&Error::Timeout("x".into())), 1);
}

#[test]
fn chip_names_and_rates() {
    assert_eq!(ChipFamily::from_name("WS63"), Some(ChipFamily::Ws63));
    assert_eq!(ChipFamily::from_name("bs21"), Some(ChipFamily::Bs2x));
    assert_eq!(ChipFamily::from_name("Auto"), Some(ChipFamily::Generic));
    assert_eq!(ChipFamily::from_name("esp32"), None);
    assert_eq!(ChipFamily::Bs25.high_speed_baud(), 2_000_000);
    assert_eq!(ChipFamily::Ws63.supported_bauds(), vec![115_200, 230_400, 460_800, 921_600]);
    assert_eq!(ChipFamily::Sw39.to_string(), "SW39");
    assert_eq!(Chip::from_config_name("bs2x"), Some(Chip::Bs2x));
    assert_eq!(Chip::from_config_name("ws53"), None);
    let c = ChipConfig::new(ChipFamily::Bs2x).with_baud(460_800).with_late_baud(true);
    assert_eq!(c.target_baud, 460_800);
    assert!(c.late_baud_switch);
    assert_eq!(ChipConfig::default().target_baud, 921_600);
}

#[test]
fn human_size_matches_float_formatting() {
    for size in [1024u64, 1280, 1536, 1792, 2047, 10_000, 1_048_575, 1_048_576, 1_310_720, 5_000_000, 123_456_789] {
        let c = FirmwareCandidate { path: "f".to_string(), size, modified: None, priority: 0 };
        let expected = if size >= 1024 * 1024 {
            format!("{:.1} MB", size as f64 / (1024.0 * 1024.0))
        } else {
            format!("{:.1} KB", size as f64 / 1024.0)
        };
        assert_eq!(c.human_size(), expected, "size {size}");
    }
}

#[test]
fn firmware_priority_by_directory() {
    let comps = |v: &[&str]| v.iter().map(|s| s.to_string()).collect::<Vec<_>>();
    assert_eq!(compute_priority(&comps(&["output", "app.fwpkg"])), 0);
    assert_eq!(compute_priority(&comps(&["Build", "out", "app.fwpkg"])), 1);
    assert_eq!(compute_priority(&comps(&["fwpkg", "app.fwpkg"])), 6);
    assert_eq!(compute_priority(&comps(&["a", "b", "app.fwpkg"])), 9);
}

#[test]
fn monitor_timestamp_text() {
    let mut at_line_start = true;
    let out = format_monitor_output_at("hi\nyo", true, &mut at_line_start, 3_723_004);
    assert_eq!(out, "\x1b[90m[01:02:03.004]\x1b[0m hi\r\n\x1b[90m[01:02:03.004]\x1b[0m yo");
    assert!(!at_line_start);
}

fn dp(name: &str, device: DeviceKind) -> DetectedPort {
    DetectedPort {
        name: name.to_string(),
        transport: TransportKind::Serial,
        device,
        vid: None,
        pid: None,
        manufacturer: None,
        product: None,
        serial: None,
    }
}

#[test]
fn port_lookup_by_name() {
    let ports = vec![dp("COM3", DeviceKind::Ch340), dp("/dev/ttyUSB1", DeviceKind::Unknown)];
    let s = find_port_by_name("com3", &ports);
    assert_eq!(s.port.name, "COM3");
    assert!(s.is_known);
    let s = find_port_by_name("/dev/ttyACM0", &ports);
    assert_eq!(s.port.name, "/dev/ttyACM0");
    assert!(!s.is_known);
}

#[test]
fn test_select_non_interactive_multiple_ports_returns_usage_error() {
    let ports = vec![dp("/dev/ttyUSB0", DeviceKind::Unknown), dp("/dev/ttyUSB1", DeviceKind::Unknown)];
    let result = select_non_interactive_port(ports, &Config::default());
    assert!(matches!(result, Err(CliError::Usage(_))));
}

#[test]
fn test_select_non_interactive_no_ports_returns_usage_error() {
    let result = select_non_interactive_port(vec![], &Config::default());
    assert!(matches!(result, Err(CliError::Usage(_))));
}

#[test]
fn test_select_non_interactive_single_port_returns_selected_port() {
    let ports = vec![dp("/dev/ttyUSB0", DeviceKind::Unknown)];
    let selected = select_non_interactive_port(ports, &Config::default()).unwrap();
    assert_eq!(selected.port.name, "/dev/ttyUSB0");
}

#[test]
fn port_choice_prefers_known_devices() {
    let ports = vec![dp("/dev/ttyS0", DeviceKind::Unknown), dp("/dev/ttyUSB0", DeviceKind::Ch340)];
    match choose_port(&SerialOptions::default(), &Config::default(), ports) {
        PortChoice::Selected(s) => assert_eq!(s.port.name, "/dev/ttyUSB0"),
        other => panic!("{other:?}"),
    }
    let ports = vec![dp("/dev/ttyS0", DeviceKind::Unknown), dp("/dev/ttyUSB0", DeviceKind::Ch340)];
    let all = SerialOptions { list_all_ports: true, ..Default::default() };
    match choose_port(&all, &Config::default(), ports) {
        PortChoice::AskAmong(v) => {
            assert_eq!(v[0].name, "/dev/ttyUSB0");
            assert_eq!(v[1].name, "/dev/ttyS0");
        },
        other => panic!("{other:?}"),
    }
    match choose_port(&SerialOptions::default(), &Config::default(), vec![]) {
        PortChoice::Failed(CliError::Usage(_)) => {},
        other => panic!("{other:?}"),
    }
}

#[test]
fn reconnect_after_reset_retries_until_the_last_try() {
    let timeout = Error::Timeout("no ack".to_string());
    assert!(retry_reconnect(1, &timeout));
    assert!(retry_reconnect(9, &timeout));
    assert!(!retry_reconnect(10, &timeout));
    assert!(!retry_reconnect(1, &io(IoErrorKind::Interrupted, "ctrl-c")));
}

#[test]
fn only_ws63_has_a_flasher() {
    assert!(ChipFamily::Ws63.flasher_available().is_ok());
    let msg = |f: ChipFamily| match f.flasher_available() {
        Err(Error::Unsupported(m)) => m,
        _ => String::new(),
    };
    assert_eq!(msg(ChipFamily::Bs2x), "BS2X series support coming soon");
    assert_eq!(msg(ChipFamily::Bs25), "BS2X series support coming soon");
    assert_eq!(msg(ChipFamily::Ws53), "WS53 series support coming soon");
    assert_eq!(msg(ChipFamily::Sw39), "SW39 series support coming soon");
    assert_eq!(msg(ChipFamily::Generic), "Cannot create flasher for generic chip family");
}

#[test]
fn handshake_bursts_only_early_after_a_timeout() {
    let p = HandshakePacer::new(1000);
    assert_eq!(p.timeout_burst_frames(1000), 2);
    assert_eq!(p.timeout_burst_frames(1_000_000), 0);
}
