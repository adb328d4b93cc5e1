use hisiflash::error::Error;
use hisiflash::port::PortInfo;
use hisiflash::reconnect::{fingerprint_of, resolve_port_in, UsbFingerprint};

fn usb(name: &str, vid: u16, pid: u16, serial: Option<&str>, product: Option<&str>) -> PortInfo {
    PortInfo {
        name: name.to_string(),
        vid: Some(vid),
        pid: Some(pid),
        manufacturer: Some("QinHeng".to_string()),
        product: product.map(str::to_string),
        serial_number: serial.map(str::to_string),
    }
}

fn plain(name: &str) -> PortInfo {
    PortInfo { name: name.to_string(), vid: None, pid: None, manufacturer: None, product: None, serial_number: None }
}

fn ch340(serial: Option<&str>) -> UsbFingerprint {
    UsbFingerprint {
        vid: 0x1A86,
        pid: 0x7523,
        manufacturer: Some("QinHeng".to_string()),
        product: Some("CH340".to_string()),
        serial_number: serial.map(str::to_string),
    }
}

#[test]
fn fingerprint_of_usb_port() {
    let ports = vec![plain("/dev/ttyS0"), usb("/dev/ttyUSB0", 0x1A86, 0x7523, Some("A1"), Some("CH340"))];
    let fp = fingerprint_of(&ports, "/dev/ttyUSB0").unwrap();
    assert_eq!((fp.vid, fp.pid), (0x1A86, 0x7523));
    assert_eq!(fp.serial_number.as_deref(), Some("A1"));
    assert_eq!(fp.product.as_deref(), Some("CH340"));
    assert!(fingerprint_of(&ports, "/dev/ttyS0").is_none());
    assert!(fingerprint_of(&ports, "/dev/ttyUSB9").is_none());
}

#[test]
fn resolve_prefers_the_node_it_had() {
    let ports = vec![usb("/dev/ttyUSB1", 0x1A86, 0x7523, None, Some("CH340")), plain("/dev/ttyUSB0")];
    assert_eq!(resolve_port_in(&ports, "/dev/ttyUSB0", Some(&ch340(None))).unwrap(), "/dev/ttyUSB0");
}

#[test]
fn resolve_follows_the_serial_number() {
    let ports = vec![
        usb("/dev/ttyUSB1", 0x1A86, 0x7523, Some("B2"), Some("CH340")),
        usb("/dev/ttyUSB2", 0x1A86, 0x7523, Some("A1"), Some("CH340")),
    ];
    assert_eq!(resolve_port_in(&ports, "/dev/ttyUSB0", Some(&ch340(Some("A1")))).unwrap(), "/dev/ttyUSB2");
}

#[test]
fn resolve_takes_the_least_name_among_id_matches() {
    let ports = vec![
        usb("/dev/ttyUSB3", 0x1A86, 0x7523, Some("X"), Some("CH340")),
        usb("/dev/ttyUSB10", 0x1A86, 0x7523, Some("Y"), Some("CH340")),
        usb("/dev/ttyUSB2", 0x1A86, 0x7523, Some("Z"), Some("Other")),
        usb("/dev/ttyACM0", 0x10C4, 0xEA60, None, Some("CH340")),
    ];
    // No serial-number match: "/dev/ttyUSB10" sorts before "/dev/ttyUSB3";
    // "/dev/ttyUSB2" has another product.
    assert_eq!(resolve_port_in(&ports, "/dev/ttyUSB0", Some(&ch340(Some("A1")))).unwrap(), "/dev/ttyUSB10");
}

#[test]
fn resolve_without_match_is_device_not_found() {
    let ports = vec![plain("/dev/ttyS0"), usb("/dev/ttyACM0", 0x10C4, 0xEA60, None, None)];
    assert!(matches!(resolve_port_in(&ports, "/dev/ttyUSB0", Some(&ch340(None))), Err(Error::DeviceNotFound)));
    assert!(matches!(resolve_port_in(&ports, "/dev/ttyUSB0", None), Err(Error::DeviceNotFound)));
}
