use hisiflash::connection::detect;
use hisiflash::device::{format_port_list, DetectedPort, DeviceKind, TransportKind, UsbDevice};

#[test]
fn test_usb_device_from_vid_pid() {
    // CH340 variants
    assert_eq!(UsbDevice::from_vid_pid(0x1A86, 0x7523), UsbDevice::Ch340);
    assert_eq!(UsbDevice::from_vid_pid(0x1A86, 0x7522), UsbDevice::Ch340);
    assert_eq!(UsbDevice::from_vid_pid(0x1A86, 0x5523), UsbDevice::Ch340);
    assert_eq!(UsbDevice::from_vid_pid(0x1A86, 0x5512), UsbDevice::Ch340);
    assert_eq!(UsbDevice::from_vid_pid(0x1A86, 0x55D4), UsbDevice::Ch340);

    // CP210x variants
    assert_eq!(UsbDevice::from_vid_pid(0x10C4, 0xEA60), UsbDevice::Cp210x);
    assert_eq!(UsbDevice::from_vid_pid(0x10C4, 0xEA70), UsbDevice::Cp210x);
    assert_eq!(UsbDevice::from_vid_pid(0x10C4, 0xEA71), UsbDevice::Cp210x);
    assert_eq!(UsbDevice::from_vid_pid(0x10C4, 0xEA63), UsbDevice::Cp210x);

    // FTDI variants
    assert_eq!(UsbDevice::from_vid_pid(0x0403, 0x6001), UsbDevice::Ftdi);
    assert_eq!(UsbDevice::from_vid_pid(0x0403, 0x6010), UsbDevice::Ftdi);
    assert_eq!(UsbDevice::from_vid_pid(0x0403, 0x6011), UsbDevice::Ftdi);
    assert_eq!(UsbDevice::from_vid_pid(0x0403, 0x6014), UsbDevice::Ftdi);
    assert_eq!(UsbDevice::from_vid_pid(0x0403, 0x6015), UsbDevice::Ftdi);

    // Prolific variants
    assert_eq!(UsbDevice::from_vid_pid(0x067B, 0x2303), UsbDevice::Prolific);
    assert_eq!(UsbDevice::from_vid_pid(0x067B, 0x23A3), UsbDevice::Prolific);
    assert_eq!(UsbDevice::from_vid_pid(0x067B, 0x23C3), UsbDevice::Prolific);
    assert_eq!(UsbDevice::from_vid_pid(0x067B, 0x23D3), UsbDevice::Prolific);

    // HiSilicon (any PID should match)
    assert_eq!(UsbDevice::from_vid_pid(0x12D1, 0x1234), UsbDevice::HiSilicon);
    assert_eq!(UsbDevice::from_vid_pid(0x12D1, 0x0000), UsbDevice::HiSilicon);
    assert_eq!(UsbDevice::from_vid_pid(0x12D1, 0xFFFF), UsbDevice::HiSilicon);

    // Unknown devices
    assert_eq!(UsbDevice::from_vid_pid(0x0000, 0x0000), UsbDevice::Unknown);
    assert_eq!(UsbDevice::from_vid_pid(0x1234, 0x5678), UsbDevice::Unknown);
    assert_eq!(UsbDevice::from_vid_pid(0xFFFF, 0xFFFF), UsbDevice::Unknown);
    // Unknown PID for known VID (not in PID list)
    assert_eq!(UsbDevice::from_vid_pid(0x1A86, 0x1234), UsbDevice::Unknown);
    assert_eq!(UsbDevice::from_vid_pid(0x10C4, 0x0000), UsbDevice::Unknown);
}

#[test]
fn test_usb_device_is_known() {
    assert!(UsbDevice::Ch340.is_known());
    assert!(UsbDevice::Cp210x.is_known());
    assert!(UsbDevice::Ftdi.is_known());
    assert!(UsbDevice::Prolific.is_known());
    assert!(UsbDevice::HiSilicon.is_known());
    assert!(!UsbDevice::Unknown.is_known());
}

#[test]
fn test_usb_device_is_high_priority() {
    assert!(UsbDevice::HiSilicon.is_high_priority());
    assert!(UsbDevice::Ch340.is_high_priority());
    assert!(UsbDevice::Cp210x.is_high_priority());
    assert!(!UsbDevice::Ftdi.is_high_priority());
    assert!(!UsbDevice::Prolific.is_high_priority());
    assert!(!UsbDevice::Unknown.is_high_priority());
}

#[test]
fn test_usb_device_name() {
    assert_eq!(UsbDevice::Ch340.name(), "CH340/CH341");
    assert_eq!(UsbDevice::Cp210x.name(), "CP210x");
    assert_eq!(UsbDevice::Ftdi.name(), "FTDI");
    assert_eq!(UsbDevice::Prolific.name(), "PL2303");
    assert_eq!(UsbDevice::HiSilicon.name(), "HiSilicon");
    assert_eq!(UsbDevice::Unknown.name(), "Unknown");
}

#[test]
fn detect_test_detected_port_is_likely_hisilicon() {
    let port_known = detect::DetectedPort {
        name: "/dev/ttyUSB0".to_string(),
        device: UsbDevice::Ch340,
        vid: Some(0x1A86),
        pid: Some(0x7523),
        manufacturer: None,
        product: None,
        serial: None,
    };
    assert!(port_known.is_likely_hisilicon());

    let port_unknown = detect::DetectedPort {
        name: "/dev/ttyS0".to_string(),
        device: UsbDevice::Unknown,
        vid: None,
        pid: None,
        manufacturer: None,
        product: None,
        serial: None,
    };
    assert!(!port_unknown.is_likely_hisilicon());
}

#[test]
fn detect_test_format_port_list() {
    let ports = vec![
        detect::DetectedPort {
            name: "/dev/ttyUSB0".to_string(),
            device: UsbDevice::Ch340,
            vid: Some(0x1A86),
            pid: Some(0x7523),
            manufacturer: Some("WCH".to_string()),
            product: Some("USB-Serial".to_string()),
            serial: None,
        },
        detect::DetectedPort {
            name: "/dev/ttyUSB1".to_string(),
            device: UsbDevice::Unknown,
            vid: None,
            pid: None,
            manufacturer: None,
            product: None,
            serial: None,
        },
    ];

    let formatted = detect::format_port_list(&ports);
    assert_eq!(formatted.len(), 2);
    assert!(formatted[0].contains("/dev/ttyUSB0"));
    assert!(formatted[0].contains("CH340/CH341"));
    assert!(formatted[1].contains("/dev/ttyUSB1"));
}

#[test]
fn test_device_kind_from_vid_pid() {
    assert_eq!(DeviceKind::from_vid_pid(0x1A86, 0x7523), DeviceKind::Ch340);
    assert_eq!(DeviceKind::from_vid_pid(0x10C4, 0xEA60), DeviceKind::Cp210x);
    assert_eq!(DeviceKind::from_vid_pid(0x0403, 0x6001), DeviceKind::Ftdi);
    assert_eq!(DeviceKind::from_vid_pid(0x067B, 0x2303), DeviceKind::Prolific);
    assert_eq!(DeviceKind::from_vid_pid(0x12D1, 0x1234), DeviceKind::HiSilicon);
    assert_eq!(DeviceKind::from_vid_pid(0x1234, 0x5678), DeviceKind::Unknown);
}

#[test]
fn test_device_kind_is_known() {
    assert!(DeviceKind::Ch340.is_known());
    assert!(!DeviceKind::Unknown.is_known());
}

#[test]
fn mod_test_detected_port_is_likely_hisilicon() {
    let known = DetectedPort {
        name: "/dev/ttyUSB0".to_string(),
        transport: TransportKind::Serial,
        device: DeviceKind::Ch340,
        vid: Some(0x1A86),
        pid: Some(0x7523),
        manufacturer: None,
        product: None,
        serial: None,
    };
    assert!(known.is_likely_hisilicon());

    let unknown = DetectedPort {
        name: "/dev/ttyS0".to_string(),
        transport: TransportKind::Serial,
        device: DeviceKind::Unknown,
        vid: None,
        pid: None,
        manufacturer: None,
        product: None,
        serial: None,
    };
    assert!(!unknown.is_likely_hisilicon());
}

#[test]
fn mod_test_format_port_list() {
    let ports = vec![
        DetectedPort {
            name: "/dev/ttyUSB0".to_string(),
            transport: TransportKind::Serial,
            device: DeviceKind::Ch340,
            vid: Some(0x1A86),
            pid: Some(0x7523),
            manufacturer: Some("WCH".to_string()),
            product: Some("USB-Serial".to_string()),
            serial: None,
        },
        DetectedPort {
            name: "/dev/ttyUSB1".to_string(),
            transport: TransportKind::Serial,
            device: DeviceKind::Unknown,
            vid: None,
            pid: None,
            manufacturer: None,
            product: None,
            serial: None,
        },
    ];

    let formatted = format_port_list(&ports);
    assert_eq!(formatted.len(), 2);
    assert!(formatted[0].contains("/dev/ttyUSB0"));
    assert!(formatted[0].contains("CH340/CH341"));
    assert!(formatted[1].contains("/dev/ttyUSB1"));
}
