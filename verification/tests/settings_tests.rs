use hisiflash::cancel::{cancel_outcome, CancelContext};
use hisiflash::cli::{apply_config_defaults, library_exit_code, Chip, CliError, CliSettings, SettingSources};
use hisiflash::config::{layered, Config, PortConfig, UsbDevice};
use hisiflash::error::Error;
use hisiflash::monitor::{clean_monitor_text, drain_utf8_lossy};
use std::sync::atomic::{AtomicBool, Ordering};
use std::sync::Arc;

fn cli_defaults() -> CliSettings {
    CliSettings { baud: 921600, chip: Chip::Ws63, late_baud: false, skip_verify: false }
}

fn flash_sources(baud_default: bool, chip_default: bool, late_given: bool, skip_given: bool) -> SettingSources {
    SettingSources {
        baud_is_default: baud_default,
        chip_is_default: chip_default,
        has_late_baud: true,
        late_baud_given: late_given,
        has_skip_verify: true,
        skip_verify_given: skip_given,
    }
}

#[test]
fn test_interrupt_checker_default_false() {
    let flag = Arc::new(AtomicBool::new(false));
    let ctx = CancelContext::new(Arc::clone(&flag));
    assert!(!ctx.is_cancelled());
}

#[test]
fn test_interrupt_checker_toggle_true_false() {
    let flag = Arc::new(AtomicBool::new(false));
    let ctx = CancelContext::new(Arc::clone(&flag));
    flag.store(true, Ordering::SeqCst);
    assert!(ctx.is_cancelled());
    flag.store(false, Ordering::SeqCst);
    assert!(!ctx.is_cancelled());
}

#[test]
fn cancel_check_reports_interrupted() {
    let flag = Arc::new(AtomicBool::new(true));
    let ctx = CancelContext::new(flag);
    let err = ctx.check().unwrap_err();
    assert!(err.is_interrupted());
    assert!(CancelContext::none().check().is_ok());
    assert!(!CancelContext::default().is_cancelled());
}

#[test]
fn test_apply_config_defaults_for_flash() {
    let mut config = Config::default();
    config.port.connection.baud = Some(460800);
    config.flash.chip = Some("bs2x".to_string());
    config.flash.late_baud = true;
    config.flash.skip_verify = true;

    let mut settings = cli_defaults();
    apply_config_defaults(&mut settings, flash_sources(true, true, false, false), &config).unwrap();

    assert_eq!(settings.baud, 460800);
    assert!(matches!(settings.chip, Chip::Bs2x));
    assert!(settings.late_baud);
    assert!(settings.skip_verify);
}

#[test]
fn test_apply_config_does_not_override_explicit_cli_values() {
    let mut config = Config::default();
    config.port.connection.baud = Some(460800);
    config.flash.chip = Some("bs2x".to_string());
    config.flash.late_baud = false;
    config.flash.skip_verify = true;

    // --baud 115200 --chip ws63 flash firmware.fwpkg --late-baud
    let mut settings = CliSettings { baud: 115200, chip: Chip::Ws63, late_baud: true, skip_verify: false };
    apply_config_defaults(&mut settings, flash_sources(false, false, true, false), &config).unwrap();

    assert_eq!(settings.baud, 115200);
    assert!(matches!(settings.chip, Chip::Ws63));
    assert!(settings.late_baud);
    assert!(settings.skip_verify);
}

#[test]
fn test_apply_config_defaults_invalid_chip() {
    let mut config = Config::default();
    config.flash.chip = Some("unknown-chip".to_string());

    // list-ports: no late-baud or skip-verify flags.
    let sources = SettingSources {
        baud_is_default: true,
        chip_is_default: true,
        has_late_baud: false,
        late_baud_given: false,
        has_skip_verify: false,
        skip_verify_given: false,
    };
    let mut settings = cli_defaults();
    let result = apply_config_defaults(&mut settings, sources, &config);
    assert!(result.is_err());
    assert!(matches!(result, Err(CliError::Config(_))));
    assert_eq!(settings, cli_defaults());
}

#[test]
fn apply_config_chip_name_is_case_insensitive() {
    let mut config = Config::default();
    config.flash.chip = Some("BS25".to_string());
    let mut settings = cli_defaults();
    apply_config_defaults(&mut settings, flash_sources(true, true, false, false), &config).unwrap();
    assert_eq!(settings.chip, Chip::Bs25);
    assert_eq!(settings.baud, 921600);
}

#[test]
fn apply_config_without_flags_keeps_them() {
    let mut config = Config::default();
    config.flash.late_baud = true;
    config.flash.skip_verify = true;
    let sources = SettingSources {
        baud_is_default: true,
        chip_is_default: true,
        has_late_baud: true,
        late_baud_given: false,
        has_skip_verify: false,
        skip_verify_given: false,
    };
    let mut settings = cli_defaults();
    apply_config_defaults(&mut settings, sources, &config).unwrap();
    assert!(settings.late_baud);
    assert!(!settings.skip_verify);
}

#[test]
fn test_map_exit_code_cancelled_is_130() {
    let err = CliError::Cancelled("cancelled".to_string());
    assert_eq!(err.exit_code(), 130);
}

#[test]
fn exit_codes_of_every_error() {
    assert_eq!(CliError::Usage("u".to_string()).exit_code(), 2);
    assert_eq!(CliError::Config("c".to_string()).exit_code(), 3);
    assert_eq!(library_exit_code(&Error::DeviceNotFound), 4);
    assert_eq!(library_exit_code(&Error::Config("x".to_string())), 3);
    assert_eq!(library_exit_code(&Error::Unsupported("x".to_string())), 5);
    assert_eq!(library_exit_code(&Error::Timeout("x".to_string())), 1);
}

#[test]
fn clean_monitor_text_drops_control_characters() {
    assert_eq!(clean_monitor_text("ok\u{1b}[0m\r\n\tx\u{7f}y\u{85}z\u{0}"), "ok[0m\r\n\txyz");
    assert_eq!(clean_monitor_text("中文 text"), "中文 text");
    assert_eq!(clean_monitor_text(""), "");
}

#[test]
fn drain_utf8_lossy_keeps_incomplete_tail() {
    let mut buf: Vec<u8> = vec![b'h', b'i', 0xE4, 0xB8];
    assert_eq!(drain_utf8_lossy(&mut buf), "hi");
    assert_eq!(buf, vec![0xE4, 0xB8]);
    buf.push(0xAD);
    assert_eq!(drain_utf8_lossy(&mut buf), "中");
    assert!(buf.is_empty());
}

#[test]
fn drain_utf8_lossy_replaces_invalid_bytes() {
    let mut buf: Vec<u8> = vec![b'a', 0xFF, b'b'];
    assert_eq!(drain_utf8_lossy(&mut buf), "a\u{FFFD}b");
    assert!(buf.is_empty());
    let mut empty: Vec<u8> = Vec::new();
    assert_eq!(drain_utf8_lossy(&mut empty), "");
}

#[test]
fn merge_with_empty_changes_nothing() {
    let mut base = Config::default();
    base.port.connection.serial = Some("COM3".to_string());
    base.port.connection.baud = Some(115200);
    base.port.usb_device.push(UsbDevice { vid: 0x1a86, pid: 0x7523 });
    base.flash.chip = Some("ws63".to_string());
    base.flash.late_baud = true;
    let before = base.clone();
    base.merge(Config::default());
    assert_eq!(base.port.connection.serial, before.port.connection.serial);
    assert_eq!(base.port.connection.baud, before.port.connection.baud);
    assert_eq!(base.port.usb_device, before.port.usb_device);
    assert_eq!(base.flash.chip, before.flash.chip);
    assert_eq!(base.flash.late_baud, before.flash.late_baud);
    assert_eq!(base.flash.skip_verify, before.flash.skip_verify);
}

#[test]
fn merge_is_associative_on_values() {
    let mut a = Config::default();
    a.port.connection.baud = Some(1);
    a.port.usb_device.push(UsbDevice { vid: 1, pid: 1 });
    let mut b = Config::default();
    b.port.connection.serial = Some("b".to_string());
    b.port.usb_device.push(UsbDevice { vid: 2, pid: 2 });
    b.flash.skip_verify = true;
    let mut c = Config::default();
    c.port.connection.baud = Some(3);
    c.flash.chip = Some("bs2x".to_string());
    c.port.usb_device.push(UsbDevice { vid: 3, pid: 3 });

    let mut left = a.clone();
    left.merge(b.clone());
    left.merge(c.clone());

    let mut bc = b.clone();
    bc.merge(c.clone());
    let mut right = a.clone();
    right.merge(bc);

    assert_eq!(left.port.connection.serial, right.port.connection.serial);
    assert_eq!(left.port.connection.baud, Some(3));
    assert_eq!(right.port.connection.baud, Some(3));
    assert_eq!(left.port.usb_device, right.port.usb_device);
    assert_eq!(left.port.usb_device.len(), 3);
    assert_eq!(left.flash.chip, right.flash.chip);
    assert_eq!(left.flash.skip_verify, right.flash.skip_verify);
}

#[test]
fn drain_in_pieces_matches_drain_at_once() {
    let stream: Vec<u8> = vec![b'o', b'k', 0xE4, 0xB8, 0xAD, 0xFF, 0xF0, 0x9F, 0x98, 0x80, 0xC3, b'!', 0xE6, 0x96];
    let mut whole_buf = stream.clone();
    let whole = drain_utf8_lossy(&mut whole_buf);
    for cut in 0..=stream.len() {
        let mut buf: Vec<u8> = stream[..cut].to_vec();
        let mut text = drain_utf8_lossy(&mut buf);
        buf.extend_from_slice(&stream[cut..]);
        text.push_str(&drain_utf8_lossy(&mut buf));
        assert_eq!(text, whole, "split at {cut}");
        assert_eq!(buf, whole_buf, "split at {cut}");
    }
    assert_eq!(whole, "ok中\u{FFFD}😀\u{FFFD}!");
    assert_eq!(whole_buf, vec![0xE6, 0x96]);
}

#[test]
fn layered_config_local_over_global() {
    let mut global = Config::default();
    global.port.connection.serial = Some("/dev/ttyUSB0".to_string());
    global.port.connection.baud = Some(115200);
    global.port.usb_device.push(UsbDevice { vid: 1, pid: 2 });
    global.flash.chip = Some("ws63".to_string());
    global.flash.late_baud = true;
    let mut local = Config::default();
    local.port.connection.baud = Some(921600);
    local.port.usb_device.push(UsbDevice { vid: 3, pid: 4 });
    local.flash.skip_verify = true;

    let c = layered(Some(global.clone()), None, Some(local.clone()), None);
    assert_eq!(c.port.connection.serial.as_deref(), Some("/dev/ttyUSB0"));
    assert_eq!(c.port.connection.baud, Some(921600));
    assert_eq!(c.port.usb_device, vec![UsbDevice { vid: 1, pid: 2 }, UsbDevice { vid: 3, pid: 4 }]);
    assert_eq!(c.flash.chip.as_deref(), Some("ws63"));
    assert!(c.flash.late_baud && c.flash.skip_verify);

    // A global ports file lies beneath the local file.
    let mut global_ports = PortConfig::default();
    global_ports.connection.serial = Some("COM7".to_string());
    global_ports.connection.baud = Some(9600);
    global_ports.usb_device.push(UsbDevice { vid: 5, pid: 6 });
    let mut local_with_port = local.clone();
    local_with_port.port.connection.serial = Some("/dev/ttyACM0".to_string());
    let c = layered(Some(global.clone()), Some(global_ports.clone()), Some(local_with_port), None);
    assert_eq!(c.port.connection.serial.as_deref(), Some("/dev/ttyACM0"));
    assert_eq!(c.port.connection.baud, Some(921600));
    assert_eq!(
        c.port.usb_device,
        vec![UsbDevice { vid: 1, pid: 2 }, UsbDevice { vid: 5, pid: 6 }, UsbDevice { vid: 3, pid: 4 }]
    );
    let c = layered(Some(global.clone()), Some(global_ports), Some(local.clone()), None);
    assert_eq!(c.port.connection.serial.as_deref(), Some("COM7"));
    assert_eq!(c.port.connection.baud, Some(921600));

    // A local ports file lies over everything, setting by setting.
    let mut local_ports = PortConfig::default();
    local_ports.connection.serial = Some("COM9".to_string());
    let c = layered(Some(global), None, Some(local), Some(local_ports));
    assert_eq!(c.port.connection.serial.as_deref(), Some("COM9"));
    assert_eq!(c.port.connection.baud, Some(921600));
    assert_eq!(c.port.usb_device, vec![UsbDevice { vid: 1, pid: 2 }, UsbDevice { vid: 3, pid: 4 }]);
    assert_eq!(c.flash.chip.as_deref(), Some("ws63"));

    let empty = layered(None, None, None, None);
    assert!(empty.port.connection.serial.is_none() && empty.flash.chip.is_none() && !empty.flash.late_baud);
}

#[test]
fn test_error_display_messages() {
    let err = Error::InvalidFwpkg(String::from("bad magic"));
    assert!(err.to_string().contains("bad magic"));

    let err = Error::CrcMismatch { expected: 0x1234, actual: 0x5678 };
    let msg = err.to_string();
    assert!(msg.contains("1234"));
    assert!(msg.contains("5678"));

    let err = Error::Timeout(String::from("read timed out"));
    assert!(err.to_string().contains("read timed out"));

    let err = Error::DeviceNotFound;
    assert!(!err.to_string().is_empty());

    let err = Error::HandshakeFailed(String::from("no ack"));
    assert!(err.to_string().contains("no ack"));

    let err = Error::Protocol(String::from("invalid frame"));
    assert!(err.to_string().contains("invalid frame"));

    let err = Error::Ymodem(String::from("transfer aborted"));
    assert!(err.to_string().contains("transfer aborted"));

    let err = Error::Unsupported(String::from("bs2x"));
    assert!(err.to_string().contains("bs2x"));

    let err = Error::Config(String::from("missing field"));
    assert!(err.to_string().contains("missing field"));
}

#[test]
fn cancel_outcome_follows_the_flag_reading() {
    assert!(cancel_outcome(false).is_ok());
    let err = cancel_outcome(true).unwrap_err();
    assert!(err.is_interrupted());
}
