use hisiflash::connection::pick_port;
use hisiflash::connection::port_names;
use hisiflash::error::Error;
use hisiflash::port::SerialConfig;
use hisiflash::web_port::{WebSerialPort, WebSerialPortEnumerator};
use hisiflash::connection::detect::{auto_detect_port, detect_hisilicon_ports, DetectedPort as SerialPortRecord};
use hisiflash::device::{classify_ports, DetectedPort, DeviceKind, TransportKind};
use hisiflash::port::{PortEnumerator, PortInfo};

fn usb(name: &str, vid: u16, pid: u16) -> PortInfo {
    PortInfo { name: name.to_string(), vid: Some(vid), pid: Some(pid), manufacturer: None, product: None, serial_number: None }
}

fn plain(name: &str) -> PortInfo {
    PortInfo { name: name.to_string(), vid: None, pid: None, manufacturer: None, product: None, serial_number: None }
}

fn records(ports: Vec<PortInfo>) -> Vec<SerialPortRecord> {
    classify_ports(ports)
        .into_iter()
        .map(|d| SerialPortRecord {
            name: d.name,
            device: d.device,
            vid: d.vid,
            pid: d.pid,
            manufacturer: d.manufacturer,
            product: d.product,
            serial: d.serial,
        })
        .collect()
}

fn sample_listing() -> Vec<PortInfo> {
    vec![plain("/dev/ttyS0"), usb("/dev/ttyUSB0", 0x0403, 0x6001), usb("/dev/ttyUSB1", 0x1A86, 0x7523)]
}

#[test]
fn test_detect_hisilicon_ports() {
    let ports = detect_hisilicon_ports(&records(sample_listing()));
    assert_eq!(ports.len(), 2);
    for port in &ports {
        assert!(port.device.is_known());
    }
}

#[test]
fn test_auto_detect_port_does_not_panic() {
    let _ = auto_detect_port(&records(sample_listing()));
    let _ = auto_detect_port(&[]);
    assert_eq!(auto_detect_port(&records(sample_listing())).unwrap().name, "/dev/ttyUSB1");
}

#[test]
fn port_names_keep_the_listing_order() {
    let names = port_names(sample_listing());
    assert_eq!(names, vec!["/dev/ttyS0", "/dev/ttyUSB0", "/dev/ttyUSB1"]);
    assert_eq!(pick_port(&names, Some("USB")).unwrap(), "/dev/ttyUSB0");
}

#[test]
fn classify_ports_uses_usb_ids() {
    let infos = vec![
        PortInfo {
            name: "/dev/ttyUSB0".to_string(),
            vid: Some(0x1A86),
            pid: Some(0x7523),
            manufacturer: Some("QinHeng".to_string()),
            product: Some("CH340".to_string()),
            serial_number: Some("42".to_string()),
        },
        PortInfo {
            name: "/dev/ttyS0".to_string(),
            vid: None,
            pid: None,
            manufacturer: None,
            product: None,
            serial_number: None,
        },
        PortInfo {
            name: "/dev/ttyACM0".to_string(),
            vid: Some(0x12D1),
            pid: Some(0x0001),
            manufacturer: None,
            product: None,
            serial_number: None,
        },
    ];
    let detected = classify_ports(infos);
    assert_eq!(detected.len(), 3);
    assert_eq!(detected[0].name, "/dev/ttyUSB0");
    assert_eq!(detected[0].device, DeviceKind::Ch340);
    assert_eq!(detected[0].transport, TransportKind::Serial);
    assert_eq!(detected[0].product.as_deref(), Some("CH340"));
    assert_eq!(detected[0].serial.as_deref(), Some("42"));
    assert_eq!(detected[1].device, DeviceKind::Unknown);
    assert_eq!(detected[1].vid, None);
    assert_eq!(detected[2].device, DeviceKind::HiSilicon);
}

#[test]
fn pick_port_by_pattern_or_first() {
    let names = vec!["/dev/ttyS0".to_string(), "/dev/ttyUSB0".to_string(), "/dev/ttyUSB1".to_string()];
    assert_eq!(pick_port(&names, Some("USB")).unwrap(), "/dev/ttyUSB0");
    assert_eq!(pick_port(&names, None).unwrap(), "/dev/ttyS0");
    assert!(matches!(pick_port(&names, Some("ACM")), Err(Error::DeviceNotFound)));
    assert!(matches!(pick_port(&[], None), Err(Error::DeviceNotFound)));
}

#[test]
fn web_serial_is_not_available() {
    let config = SerialConfig::new("web", 115200);
    assert!(matches!(WebSerialPort::new(&config), Err(Error::Unsupported(_))));
    assert!(matches!(WebSerialPortEnumerator::list_ports(), Err(Error::Unsupported(_))));
}

fn endpoint(name: &str, device: DeviceKind) -> DetectedPort {
    DetectedPort {
        name: name.to_string(),
        transport: TransportKind::Serial,
        device,
        vid: None,
        pid: None,
        manufacturer: None,
        product: None,
        serial: None,
    }
}

#[test]
fn auto_detection_wants_a_known_device() {
    let unknown = vec![endpoint("/dev/ttyS0", DeviceKind::Unknown), endpoint("/dev/ttyS1", DeviceKind::Unknown)];
    assert!(matches!(hisiflash::device::auto_detect_port(&unknown), Err(Error::DeviceNotFound)));
    assert!(matches!(hisiflash::device::auto_detect_port(&[]), Err(Error::DeviceNotFound)));
    let mixed = vec![
        endpoint("/dev/ttyS0", DeviceKind::Unknown),
        endpoint("/dev/ttyUSB0", DeviceKind::Ftdi),
        endpoint("/dev/ttyUSB1", DeviceKind::Cp210x),
    ];
    assert_eq!(hisiflash::device::auto_detect_port(&mixed).unwrap().name, "/dev/ttyUSB1");
}
