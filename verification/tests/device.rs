use std::collections::HashMap;

use pci_config::pci::device_db::{make_key, PciDeviceInfo};
use pci_config::pci::{ClassCode, PCIAddress, PciDevice, PciDeviceType, PciInterface, RegisterFile};

const ADDR: PCIAddress = PCIAddress { bus: 0, dev: 3, fun: 0 };

fn nic(file: &mut RegisterFile) -> PciDevice {
    file.add_function(ADDR);
    assert!(file.set_register(ADDR, 0x00, 0x100e_8086, 0));
    assert!(file.set_register(ADDR, 0x04, 0x0290_0003, 0x0000_0007));
    assert!(file.set_register(ADDR, 0x08, 0x0200_1203, 0));
    assert!(file.set_register(ADDR, 0x0c, 0x0000_4010, 0));
    PciDevice::new(file, 0, 3, 0).unwrap()
}

fn table() -> HashMap<u32, PciDeviceInfo> {
    let mut devices = HashMap::new();
    devices.insert(
        make_key(0x8086, 0x100e),
        PciDeviceInfo {
            vendor_name: "Intel Corporation",
            device_name: "82540EM Gigabit Ethernet Controller",
        },
    );
    devices.insert(
        make_key(0x1af4, 0x1000),
        PciDeviceInfo { vendor_name: "Red Hat, Inc.", device_name: "Virtio network device" },
    );
    devices
}

#[test]
fn device_reports_its_address() {
    let mut file = RegisterFile::new();
    let device = nic(&mut file);
    assert_eq!(device.pci_address(), ADDR);
}

#[test]
fn identifiers_are_the_two_halves_of_the_first_word() {
    let mut file = RegisterFile::new();
    let device = nic(&mut file);
    assert_eq!(device.vendor_id(&file), 0x8086);
    assert_eq!(device.device_id(&file), 0x100e);
}

#[test]
fn status_is_the_upper_half_of_the_command_word() {
    let mut file = RegisterFile::new();
    let device = nic(&mut file);
    assert_eq!(device.status(&file), 0x0290);
}

#[test]
fn revision_and_class_are_the_bytes_of_the_class_word() {
    let mut file = RegisterFile::new();
    let device = nic(&mut file);
    assert_eq!(device.revision_and_class(&file), (0x03, 0x02, 0x00, 0x12));
}

#[test]
fn device_class_names_the_well_known_classes() {
    let classes = [
        (0x0101_0000u32, ClassCode::IDEController),
        (0x0106_0000, ClassCode::SATAController),
        (0x0200_0000, ClassCode::EthernetController),
        (0x0300_0000, ClassCode::VGACompatibleController),
        (0x0500_0000, ClassCode::RAMController),
        (0x0600_0000, ClassCode::HostBridge),
        (0x0601_0000, ClassCode::ISABridge),
        (0x0680_0000, ClassCode::OtherBridge),
        (0x0c03_0000, ClassCode::Unknown),
        (0xffff_0000, ClassCode::Unknown),
    ];
    for (word, class) in classes {
        let mut file = RegisterFile::new();
        let device = nic(&mut file);
        assert!(file.set_register(ADDR, 0x08, word | 0xab12, 0));
        assert_eq!(device.device_class(&file), class);
    }
    assert_eq!(ClassCode::from(0x0200), ClassCode::EthernetController);
    assert_eq!(ClassCode::from(0x0201), ClassCode::Unknown);
}

#[test]
fn class_code_is_kept_for_every_named_class() {
    let codes = [0x0101u16, 0x0106, 0x0200, 0x0300, 0x0500, 0x0600, 0x0601, 0x0680];
    for code in codes {
        assert_eq!(ClassCode::from(code).code(), code);
    }
    assert_eq!(ClassCode::Unknown.code(), 0xffff);
    assert_eq!(ClassCode::from(0x0c03).code(), 0xffff);
    assert_eq!(ClassCode::from(0xffff), ClassCode::Unknown);
}

#[test]
fn header_layout_has_a_code() {
    assert_eq!(PciDeviceType::Endpoint.code(), 0x00);
    assert_eq!(PciDeviceType::PciBridge.code(), 0x01);
    assert_eq!(PciDeviceType::Unknown.code(), 0xff);
}

#[test]
fn device_id_does_not_depend_on_the_word_at_offset_4() {
    let mut file = RegisterFile::new();
    let device = nic(&mut file);
    assert!(file.set_register(ADDR, 0x04, 0xffff_ffff, 0));
    assert_eq!(device.device_id(&file), 0x100e);
    assert_eq!(device.vendor_id(&file), 0x8086);
    assert!(file.set_register(ADDR, 0x00, 0xabcd_1234, 0));
    assert_eq!(device.device_id(&file), 0xabcd);
    assert_eq!(device.vendor_id(&file), 0x1234);
}

#[test]
fn device_type_is_the_header_layout() {
    let layouts = [
        (0x0000_0000u32, PciDeviceType::Endpoint),
        (0x0001_0000, PciDeviceType::PciBridge),
        (0x0002_0000, PciDeviceType::Unknown),
        (0x007f_0000, PciDeviceType::Unknown),
        (0x0080_0000, PciDeviceType::Endpoint),
        (0x0081_0000, PciDeviceType::PciBridge),
        (0xff00_ffff, PciDeviceType::Endpoint),
    ];
    for (word, layout) in layouts {
        let mut file = RegisterFile::new();
        let device = nic(&mut file);
        assert!(file.set_register(ADDR, 0x0c, word, 0));
        assert_eq!(device.device_type(&file), layout);
    }
}

#[test]
fn bus_mastering_is_bit_2_of_the_command_word() {
    let mut file = RegisterFile::new();
    let mut device = nic(&mut file);
    assert!(!device.is_bus_master(&file));
    device.enable_bus_mastering(&mut file);
    assert!(device.is_bus_master(&file));
    assert_eq!(file.read(ADDR, 0x04), 0x0290_0007);
    device.enable_bus_mastering(&mut file);
    assert_eq!(file.read(ADDR, 0x04), 0x0290_0007);
}

#[test]
fn info_looks_the_identifiers_up() {
    let mut file = RegisterFile::new();
    let device = nic(&mut file);
    let devices = table();
    let names = device.info(&file, &devices).unwrap();
    assert_eq!(names.vendor_name, "Intel Corporation");
    assert_eq!(names.device_name, "82540EM Gigabit Ethernet Controller");
    assert!(file.set_register(ADDR, 0x00, 0x100f_8086, 0));
    assert!(device.info(&file, &devices).is_none());
    assert!(device.info(&file, &HashMap::new()).is_none());
}

#[test]
fn key_holds_vendor_above_device() {
    assert_eq!(make_key(0x8086, 0x100e), 0x8086_100e);
    assert_eq!(make_key(0, 0), 0);
    assert_eq!(make_key(0xffff, 0xffff), 0xffff_ffff);
    assert_eq!(make_key(0x0001, 0x0000), 0x0001_0000);
}

#[test]
fn description_names_a_known_device() {
    let mut file = RegisterFile::new();
    let device = nic(&mut file);
    assert_eq!(
        device.describe(&file, &table()),
        "00:03.0: Intel Corporation 82540EM Gigabit Ethernet Controller"
    );
}

#[test]
fn description_falls_back_to_the_identifiers() {
    let mut file = RegisterFile::new();
    let device = nic(&mut file);
    assert_eq!(
        device.describe(&file, &HashMap::new()),
        "00:03.0: Unknown[0x8086] Unknown[0x100e]"
    );
    assert!(file.set_register(ADDR, 0x00, 0x0000_00ab, 0));
    assert_eq!(device.describe(&file, &table()), "00:03.0: Unknown[0xab] Unknown[0x0]");
    assert!(file.set_register(ADDR, 0x00, 0xffff_0100, 0));
    assert_eq!(device.describe(&file, &table()), "00:03.0: Unknown[0x100] Unknown[0xffff]");
}
