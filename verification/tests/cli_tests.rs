use hisiflash::chip::ChipFamily;
use hisiflash::cli::{match_locale, parse_bin_arg, parse_hex_u32, partition_type_str, Chip};
use hisiflash::config::{Config, ConnectionConfig, FlashConfig, PortConfig, UsbDevice};
use hisiflash::device::{DetectedPort, TransportKind, UsbDevice as DeviceUsb};
use hisiflash::firmware::{is_fwpkg_extension, search_order, skip_search_dir, truncate_start, FirmwareCandidate};
use hisiflash::fwpkg::PartitionType;
use hisiflash::selection::{is_known_device, SelectedPort, SerialOptions};

// ---- locale ----

#[test]
fn test_locale_chinese_variants() {
    assert_eq!(match_locale("zh_CN.UTF-8"), "zh-CN");
    assert_eq!(match_locale("zh_CN"), "zh-CN");
    assert_eq!(match_locale("zh-CN"), "zh-CN");
    assert_eq!(match_locale("zh_TW.UTF-8"), "zh-CN"); // Taiwan -> Simplified (fallback)
    assert_eq!(match_locale("zh"), "zh-CN");
}

#[test]
fn test_locale_english_variants() {
    assert_eq!(match_locale("en_US.UTF-8"), "en");
    assert_eq!(match_locale("en_GB.UTF-8"), "en");
    assert_eq!(match_locale("en_US"), "en");
    assert_eq!(match_locale("en"), "en");
}

#[test]
fn test_locale_posix_defaults() {
    assert_eq!(match_locale("C"), "en");
    assert_eq!(match_locale("POSIX"), "en");
    assert_eq!(match_locale("C.UTF-8"), "en");
}

#[test]
fn test_locale_unsupported_fallback() {
    assert_eq!(match_locale("de_DE.UTF-8"), "en"); // German -> English
    assert_eq!(match_locale("ja_JP.UTF-8"), "en"); // Japanese -> English
    assert_eq!(match_locale("fr_FR"), "en"); // French -> English
}

// ---- parse_bin_arg ----

#[test]
fn test_parse_bin_arg_valid() {
    let (path, addr) = parse_bin_arg("app.bin:0x00800000").unwrap();
    assert_eq!(path, "app.bin");
    assert_eq!(addr, 0x00800000);
}

#[test]
fn test_parse_bin_arg_no_prefix() {
    let (path, addr) = parse_bin_arg("data.bin:800000").unwrap();
    assert_eq!(path, "data.bin");
    assert_eq!(addr, 0x00800000);
}

#[test]
fn test_parse_bin_arg_invalid_no_colon() {
    assert!(parse_bin_arg("app.bin").is_err());
}

#[test]
fn test_parse_bin_arg_windows_path() {
    let (path, addr) = parse_bin_arg("C:\\fw\\app.bin:0x00800000").unwrap();
    assert_eq!(path, "C:\\fw\\app.bin");
    assert_eq!(addr, 0x00800000);
}

#[test]
fn test_parse_bin_arg_invalid_missing_address() {
    assert!(parse_bin_arg("C:\\fw\\app.bin:").is_err());
}

#[test]
fn test_parse_bin_arg_invalid_address() {
    assert!(parse_bin_arg("app.bin:ZZZZ").is_err());
}

// ---- parse_hex_u32 ----

#[test]
fn test_parse_hex_u32_with_prefix() {
    assert_eq!(parse_hex_u32("0x00800000").unwrap(), 0x00800000);
    assert_eq!(parse_hex_u32("0X00800000").unwrap(), 0x00800000);
}

#[test]
fn test_parse_hex_u32_without_prefix() {
    assert_eq!(parse_hex_u32("DEADBEEF").unwrap(), 0xDEADBEEF);
    assert_eq!(parse_hex_u32("ff").unwrap(), 0xFF);
}

#[test]
fn test_parse_hex_u32_with_underscores() {
    assert_eq!(parse_hex_u32("0x00_80_00_00").unwrap(), 0x00800000);
}

#[test]
fn test_parse_hex_u32_with_whitespace() {
    assert_eq!(parse_hex_u32("  0xFF  ").unwrap(), 0xFF);
}

#[test]
fn test_parse_hex_u32_invalid() {
    assert!(parse_hex_u32("not_hex").is_err());
    assert!(parse_hex_u32("0xGG").is_err());
}

#[test]
fn test_parse_hex_u32_overflow() {
    assert!(parse_hex_u32("0x1FFFFFFFF").is_err());
}

#[test]
fn test_parse_hex_u32_zero() {
    assert_eq!(parse_hex_u32("0x0").unwrap(), 0);
    assert_eq!(parse_hex_u32("0").unwrap(), 0);
}

// ---- Chip conversion ----

#[test]
fn test_chip_to_chip_family() {
    assert_eq!(ChipFamily::from(Chip::Ws63), ChipFamily::Ws63);
    assert_eq!(ChipFamily::from(Chip::Bs2x), ChipFamily::Bs2x);
    assert_eq!(ChipFamily::from(Chip::Bs25), ChipFamily::Bs25);
}

// ---- partition_type_str ----

#[test]
fn test_partition_type_str_values() {
    assert_eq!(partition_type_str(PartitionType::Loader), "Loader");
    assert_eq!(partition_type_str(PartitionType::Normal), "Normal");
    assert_eq!(partition_type_str(PartitionType::KvNv), "KV-NV");
    assert_eq!(partition_type_str(PartitionType::Flashboot), "FlashBoot");
    assert_eq!(partition_type_str(PartitionType::Factory), "Factory");
    assert_eq!(partition_type_str(PartitionType::Unknown(99)), "Unknown");
}

// ---- Config defaults ----

#[test]
fn test_default_config() {
    let config = Config::default();
    assert!(config.port.connection.serial.is_none());
    assert!(config.port.connection.baud.is_none());
    assert!(config.port.usb_device.is_empty());
    assert!(config.flash.chip.is_none());
    assert!(!config.flash.skip_verify);
    assert!(!config.flash.late_baud);
}

#[test]
fn test_default_connection_config() {
    let conn = ConnectionConfig::default();
    assert!(conn.serial.is_none());
    assert!(conn.baud.is_none());
}

#[test]
fn test_default_port_config() {
    let port = PortConfig::default();
    assert!(port.connection.serial.is_none());
    assert!(port.usb_device.is_empty());
}

#[test]
fn test_default_flash_config() {
    let flash = FlashConfig::default();
    assert!(flash.chip.is_none());
    assert!(!flash.skip_verify);
    assert!(!flash.late_baud);
}

// ---- UsbDevice ----

#[test]
fn test_usb_device_matches() {
    let device = UsbDevice { vid: 0x1A86, pid: 0x7523 };
    assert!(device.matches(0x1A86, 0x7523));
    assert!(!device.matches(0x1A86, 0x7522));
    assert!(!device.matches(0x10C4, 0x7523));
}

#[test]
fn test_usb_device_eq() {
    let a = UsbDevice { vid: 0x1A86, pid: 0x7523 };
    let b = UsbDevice { vid: 0x1A86, pid: 0x7523 };
    let c = UsbDevice { vid: 0x10C4, pid: 0xEA60 };
    assert_eq!(a, b);
    assert_ne!(a, c);
}

#[test]
fn test_usb_device_clone() {
    let a = UsbDevice { vid: 0x1A86, pid: 0x7523 };
    let b = a.clone();
    assert_eq!(a, b);
}

// ---- Config merge ----

#[test]
fn test_config_merge_serial() {
    let mut base = Config::default();
    let mut other = Config::default();
    other.port.connection.serial = Some("/dev/ttyUSB0".to_string());
    other.flash.chip = Some("ws63".to_string());

    base.merge(other);

    assert_eq!(base.port.connection.serial.as_deref(), Some("/dev/ttyUSB0"));
    assert_eq!(base.flash.chip.as_deref(), Some("ws63"));
}

#[test]
fn test_config_merge_baud() {
    let mut base = Config::default();
    base.port.connection.baud = Some(115200);

    let mut other = Config::default();
    other.port.connection.baud = Some(921600);

    base.merge(other);
    assert_eq!(base.port.connection.baud, Some(921600));
}

#[test]
fn test_config_merge_does_not_overwrite_with_none() {
    let mut base = Config::default();
    base.port.connection.serial = Some("/dev/ttyUSB0".to_string());
    base.port.connection.baud = Some(115200);

    let other = Config::default(); // all None
    base.merge(other);

    assert_eq!(base.port.connection.serial.as_deref(), Some("/dev/ttyUSB0"));
    assert_eq!(base.port.connection.baud, Some(115200));
}

#[test]
fn test_config_merge_usb_devices_extend() {
    let mut base = Config::default();
    base.port.usb_device.push(UsbDevice { vid: 0x1A86, pid: 0x7523 });

    let mut other = Config::default();
    other.port.usb_device.push(UsbDevice { vid: 0x10C4, pid: 0xEA60 });

    base.merge(other);
    assert_eq!(base.port.usb_device.len(), 2);
}

#[test]
fn test_config_merge_skip_verify() {
    let mut base = Config::default();
    let mut other = Config::default();
    other.flash.skip_verify = true;
    base.merge(other);
    assert!(base.flash.skip_verify);
}

#[test]
fn test_config_merge_late_baud() {
    let mut base = Config::default();
    let mut other = Config::default();
    other.flash.late_baud = true;
    base.merge(other);
    assert!(base.flash.late_baud);
}

// ---- SerialOptions ----

#[test]
fn test_serial_options_default() {
    let options = SerialOptions::default();
    assert!(options.port.is_none());
    assert!(!options.list_all_ports);
    assert!(!options.non_interactive);
    assert!(!options.confirm_port);
}

#[test]
fn test_serial_options_with_port() {
    let options = SerialOptions { port: Some("/dev/ttyUSB0".to_string()), ..Default::default() };
    assert_eq!(options.port.as_deref(), Some("/dev/ttyUSB0"));
}

#[test]
fn test_serial_options_clone() {
    let options = SerialOptions {
        port: Some("COM3".to_string()),
        list_all_ports: true,
        non_interactive: true,
        confirm_port: false,
    };
    let cloned = options.clone();
    assert_eq!(cloned.port, options.port);
    assert_eq!(cloned.list_all_ports, options.list_all_ports);
    assert_eq!(cloned.non_interactive, options.non_interactive);
}

fn port(name: &str, device: DeviceUsb, vid: Option<u16>, pid: Option<u16>) -> DetectedPort {
    DetectedPort {
        name: name.to_string(),
        transport: TransportKind::Serial,
        device,
        vid,
        pid,
        manufacturer: None,
        product: None,
        serial: None,
    }
}

#[test]
fn test_is_known_device_builtin() {
    let port = port("/dev/ttyUSB0", DeviceUsb::Ch340, Some(0x1A86), Some(0x7523));
    let config = Config::default();
    assert!(is_known_device(&port, &config));
}

#[test]
fn test_is_known_device_unknown() {
    let port = port("/dev/ttyUSB0", DeviceUsb::Unknown, Some(0x9999), Some(0x9999));
    let config = Config::default();
    assert!(!is_known_device(&port, &config));
}

#[test]
fn test_is_known_device_from_config() {
    let port = port("/dev/ttyUSB0", DeviceUsb::Unknown, Some(0xABCD), Some(0x1234));
    let mut config = Config::default();
    config.port.usb_device.push(UsbDevice { vid: 0xABCD, pid: 0x1234 });
    assert!(is_known_device(&port, &config));
}

#[test]
fn test_is_known_device_no_vid_pid() {
    let port = port("/dev/ttyS0", DeviceUsb::Unknown, None, None);
    let config = Config::default();
    assert!(!is_known_device(&port, &config));
}

#[test]
fn test_selected_port_fields() {
    let sp = SelectedPort {
        port: DetectedPort {
            name: "COM1".to_string(),
            transport: TransportKind::Serial,
            device: DeviceUsb::Cp210x,
            vid: Some(0x10C4),
            pid: Some(0xEA60),
            manufacturer: Some("Silicon Labs".to_string()),
            product: Some("CP2102".to_string()),
            serial: None,
        },
        is_known: true,
    };
    assert_eq!(sp.port.name, "COM1");
    assert!(sp.is_known);
    assert!(sp.port.device.is_known());
}

// ---- firmware candidates ----

fn candidate(path: &str, size: u64) -> FirmwareCandidate {
    FirmwareCandidate { path: path.to_string(), size, modified: None, priority: 0 }
}

#[test]
fn test_human_size() {
    let c = candidate("test.fwpkg", 512);
    assert_eq!(c.human_size(), "512 B");

    let c = candidate("test.fwpkg", 2048);
    assert_eq!(c.human_size(), "2.0 KB");

    let c = candidate("test.fwpkg", 3 * 1024 * 1024);
    assert_eq!(c.human_size(), "3.0 MB");
}

#[test]
fn test_display_label_with_base() {
    let c = candidate("/home/user/project/output/app.fwpkg", 1024);
    let label = c.display_label("/home/user/project");
    assert!(label.contains("output/app.fwpkg"));
    assert!(label.contains("1.0 KB"));
}

#[test]
fn test_display_label_no_common_prefix() {
    let c = candidate("/home/user/app.fwpkg", 500);
    let label = c.display_label("/other/dir");
    // Falls back to full path.
    assert!(label.contains("app.fwpkg"));
    assert!(label.contains("500 B"));
}

#[test]
fn test_display_label_exact_base() {
    let c = candidate("/project/fw.fwpkg", 2 * 1024 * 1024);
    let label = c.display_label("/project");
    assert_eq!(label, "fw.fwpkg (2.0 MB)");
}

fn found(path: &str, priority: u32, modified: Option<u128>) -> FirmwareCandidate {
    FirmwareCandidate { path: path.to_string(), size: 1, modified, priority }
}

#[test]
fn search_order_sorts_by_priority_time_and_depth() {
    let cands = vec![
        found("/p/misc/old.fwpkg", 7, Some(10)),
        found("/p/output/a.fwpkg", 0, Some(5)),
        found("/p/output/b.fwpkg", 0, Some(9)),
        found("/p/output/deep/c.fwpkg", 0, Some(9)),
        found("/p/output/d.fwpkg", 0, None),
        found("/p/output/e.fwpkg", 0, Some(9)),
    ];
    let lengths = vec![4, 4, 4, 5, 4, 4];
    let order = search_order(&cands, &lengths);
    // Unknown time first, then newest, then fewer components; ties keep
    // the order in which the files were found.
    assert_eq!(order, vec![4, 2, 5, 3, 1, 0]);
}

#[test]
fn search_order_of_nothing_is_empty() {
    let order = search_order(&[], &[]);
    assert!(order.is_empty());
}

#[test]
fn test_truncate_start_short_string_unchanged() {
    assert_eq!(truncate_start("hello", 80), "hello");
}

#[test]
fn test_truncate_start_exact_fit() {
    let s = "abcdef";
    assert_eq!(truncate_start(s, 6), "abcdef");
}

#[test]
fn test_truncate_start_cuts_left() {
    // 10 chars, width 5: keep 4 chars and the ellipsis.
    let s = "0123456789";
    let result = truncate_start(s, 5);
    assert!(result.starts_with('…'));
    assert_eq!(console::measure_text_width(&result), 5);
    assert_eq!(result, "…6789");
}

#[test]
fn test_truncate_start_path_cuts_at_separator() {
    let s = "src/output/ws63/fwpkg/ws63-liteos-app/ws63-liteos-app_all.fwpkg (1.8 MB)";
    let result = truncate_start(s, 50);
    assert!(result.starts_with('…'));
    assert!(result.starts_with("…/"));
    assert!(result.ends_with("(1.8 MB)"));
    assert!(console::measure_text_width(&result) <= 50);
}

#[test]
fn test_truncate_start_very_narrow() {
    assert_eq!(truncate_start("long string", 1), "…");
}

#[test]
fn test_truncate_start_preserves_size_suffix() {
    let s = "very/long/path/to/firmware.fwpkg (2.0 MB)";
    let result = truncate_start(s, 30);
    assert!(result.ends_with("(2.0 MB)"));
}

#[test]
fn truncate_start_slash_at_edges_is_not_a_cut() {
    // The kept tail starts with '/': no further cut.
    assert_eq!(truncate_start("abc/defgh", 7), "…/defgh");
    // The kept tail ends with '/': no further cut.
    assert_eq!(truncate_start("abcdefgh/", 4), "…gh/");
}

#[test]
fn display_label_of_plain_paths() {
    let c = candidate("/home/user/app.fwpkg", 500);
    assert_eq!(c.display_label("/other/dir"), "/home/user/app.fwpkg (500 B)");
    assert_eq!(c.display_label(""), "/home/user/app.fwpkg (500 B)");
    assert_eq!(c.display_label("/home"), "user/app.fwpkg (500 B)");
    assert_eq!(c.display_label("/home/us"), "/home/user/app.fwpkg (500 B)");
}

#[test]
fn printed_addresses_parse_back() {
    for v in [0u32, 0x0080_0000, 0xDEAD_BEEF, u32::MAX] {
        assert_eq!(parse_hex_u32(&format!("0x{v:08X}")).unwrap(), v);
    }
}

#[test]
fn firmware_search_skips_hidden_and_build_tool_directories() {
    for name in [".git", ".svn", ".hg", ".cache", "target", "node_modules"] {
        assert!(skip_search_dir(name), "{name}");
    }
    for name in [".", "output", "build", "fwpkg", "targets"] {
        assert!(!skip_search_dir(name), "{name}");
    }
    assert!(is_fwpkg_extension("fwpkg"));
    assert!(is_fwpkg_extension("FWPKG"));
    assert!(!is_fwpkg_extension("bin"));
}

#[test]
fn hex_addresses_in_every_accepted_form() {
    assert_eq!(parse_hex_u32(" 0X_dead_BEEF \t").unwrap(), 0xDEAD_BEEF);
    assert_eq!(parse_hex_u32("00800000").unwrap(), 0x0080_0000);
    assert_eq!(parse_hex_u32(&format!("0X{:x}", 0xABCDu32)).unwrap(), 0xABCD);
    assert_eq!(parse_hex_u32(&format!("{:08x}", 0x12u32)).unwrap(), 0x12);
    assert!(parse_hex_u32("0x1_0000_0000").is_err());
}
