use hisiflash::fwpkg::{
    Fwpkg,
    FwpkgHeader, FwpkgVersion, PartitionType, BIN_INFO_SIZE_V1, BIN_INFO_SIZE_V2, FWPKG_MAGIC_V1,
    FWPKG_MAGIC_V2_MAX, FWPKG_MAGIC_V2_MIN, HEADER_SIZE_V1, HEADER_SIZE_V2,
};
use hisiflash::port::{DataBits, FlowControl, Parity, SerialConfig, StopBits};
use std::time::Duration;

#[test]
fn test_partition_type_from_u32() {
    assert_eq!(PartitionType::from(0), PartitionType::Loader);
    assert_eq!(PartitionType::from(1), PartitionType::Normal);
    assert_eq!(PartitionType::from(2), PartitionType::KvNv);
    assert_eq!(PartitionType::from(5), PartitionType::Flashboot);
    assert_eq!(PartitionType::from(16), PartitionType::Database);
    assert_eq!(PartitionType::from(99), PartitionType::Unknown(99));
}

#[test]
fn test_partition_type_as_u32() {
    assert_eq!(PartitionType::Loader.as_u32(), 0);
    assert_eq!(PartitionType::Normal.as_u32(), 1);
    assert_eq!(PartitionType::Unknown(42).as_u32(), 42);
}

#[test]
fn test_magic_constants() {
    assert_eq!(FWPKG_MAGIC_V1, 0xEFBEADDF);
    assert_eq!(FWPKG_MAGIC_V2_MIN, 0xEFBEADD0);
    assert_eq!(FWPKG_MAGIC_V2_MAX, 0xEFBEADDE);
    // V1 magic should be just above V2 range
    const { assert!(FWPKG_MAGIC_V1 > FWPKG_MAGIC_V2_MAX) };
}

#[test]
fn test_header_sizes() {
    assert_eq!(HEADER_SIZE_V1, 12);
    assert_eq!(HEADER_SIZE_V2, 272); // 12 + 260
    assert_eq!(BIN_INFO_SIZE_V1, 52); // 32 + 4*5 = 52 (no padding)
    assert_eq!(BIN_INFO_SIZE_V2, 284); // 260 + 20 + 4 padding
}

#[test]
fn test_fwpkg_version_header_size() {
    let v1_header = FwpkgHeader {
        magic: FWPKG_MAGIC_V1,
        crc: 0,
        cnt: 0,
        len: 0,
        name: String::new(),
        version: FwpkgVersion::V1,
    };
    assert_eq!(v1_header.header_size(), HEADER_SIZE_V1);
    assert_eq!(v1_header.bin_info_size(), BIN_INFO_SIZE_V1);

    let v2_header = FwpkgHeader {
        magic: FWPKG_MAGIC_V2_MIN,
        crc: 0,
        cnt: 0,
        len: 0,
        name: "test".to_string(),
        version: FwpkgVersion::V2,
    };
    assert_eq!(v2_header.header_size(), HEADER_SIZE_V2);
    assert_eq!(v2_header.bin_info_size(), BIN_INFO_SIZE_V2);
}

#[test]
fn test_serial_config_default() {
    let config = SerialConfig::default();
    assert_eq!(config.baud_rate, 115200);
    assert_eq!(config.data_bits, DataBits::Eight);
    assert_eq!(config.parity, Parity::NoParity);
    assert_eq!(config.stop_bits, StopBits::One);
    assert_eq!(config.flow_control, FlowControl::NoFlowControl);
}

#[test]
fn test_serial_config_builder() {
    let config = SerialConfig::new("/dev/ttyUSB0", 921600).with_timeout(Duration::from_secs(5));

    assert_eq!(config.port_name, "/dev/ttyUSB0");
    assert_eq!(config.baud_rate, 921600);
    assert_eq!(config.timeout, Duration::from_secs(5));
}

fn push_le32(out: &mut Vec<u8>, v: u32) {
    out.extend_from_slice(&v.to_le_bytes());
}

fn v1_package_with_full_name() -> Vec<u8> {
    let mut data = Vec::new();
    push_le32(&mut data, FWPKG_MAGIC_V1);
    data.extend_from_slice(&0u16.to_le_bytes());
    data.extend_from_slice(&2u16.to_le_bytes());
    push_le32(&mut data, 12 + 2 * 52);
    // A loader whose 32-byte name field holds no NUL at all.
    data.extend_from_slice(&[b'A'; 32]);
    for v in [0x1000u32, 0x10, 0x0, 0x10, 0] {
        push_le32(&mut data, v);
    }
    let mut name = [0u8; 32];
    name[..3].copy_from_slice(b"app");
    data.extend_from_slice(&name);
    for v in [0x2000u32, 0x20, 0x0080_0000, 0x20, 1] {
        push_le32(&mut data, v);
    }
    data
}

#[test]
fn v1_partition_name_stops_before_the_last_byte_of_its_field() {
    let pkg = Fwpkg::from_bytes(v1_package_with_full_name()).unwrap();
    assert_eq!(pkg.partition_count(), 2);
    assert_eq!(pkg.bins[0].name, "A".repeat(31));
    assert_eq!(pkg.bins[1].name, "app");
    assert_eq!(pkg.bins[1].burn_addr, 0x0080_0000);
}

#[test]
fn loaders_and_normal_partitions_make_up_the_package() {
    let pkg = Fwpkg::from_bytes(v1_package_with_full_name()).unwrap();
    let loader = pkg.loaderboot().unwrap();
    assert_eq!(loader.partition_type, PartitionType::Loader);
    let normal = pkg.normal_bins();
    assert_eq!(normal.len(), 1);
    assert_eq!(normal[0].name, "app");
    assert_eq!(normal.len() + 1, pkg.partition_count());
}
