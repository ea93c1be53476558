use pci_config::pci::{
    Bar, BarError, BarType, MsiXTableError, MsiXTableRegion, PCIAddress, PciDevice, PciInterface,
    RegisterFile,
};

const ADDR: PCIAddress = PCIAddress { bus: 0, dev: 3, fun: 0 };

fn device_with_msix(file: &mut RegisterFile, control: u32, table: u32, pending: u32) -> PciDevice {
    file.add_function(ADDR);
    assert!(file.set_register(ADDR, 0x00, 0x100e_8086, 0));
    assert!(file.set_register(ADDR, 0x04, 0x0010_0000, 0x0000_0007));
    assert!(file.set_register(ADDR, 0x10, 0xfeb0_0000, 0xffff_0000));
    assert!(file.set_register(ADDR, 0x34, 0x40, 0));
    assert!(file.set_register(ADDR, 0x40, 0x0000_5001, 0));
    assert!(file.set_register(ADDR, 0x50, control, 0xc000_0000));
    assert!(file.set_register(ADDR, 0x54, table, 0));
    assert!(file.set_register(ADDR, 0x58, pending, 0));
    PciDevice::new(file, 0, 3, 0).unwrap()
}

#[test]
fn message_control_is_the_upper_half() {
    let mut file = RegisterFile::new();
    let mut device = device_with_msix(&mut file, 0x4007_0011, 0x2000, 0x3002);
    let msix = device.get_msix_config(&file).unwrap();
    assert_eq!(msix.offset, 0x50);
    assert_eq!(msix.message_control(&file), 0x4007);
    assert!(!msix.enabled(&file));
    assert!(msix.function_mask(&file));
    assert_eq!(msix.table_size(&file), 7);
}

#[test]
fn table_size_is_ten_bits_wide() {
    let mut file = RegisterFile::new();
    let mut device = device_with_msix(&mut file, 0xffff_0011, 0x2000, 0x3002);
    let msix = device.get_msix_config(&file).unwrap();
    assert_eq!(msix.table_size(&file), 0x3ff);
    assert!(msix.enabled(&file));
    assert!(msix.function_mask(&file));
}

#[test]
fn table_and_pending_words_split_into_bir_and_offset() {
    let mut file = RegisterFile::new();
    let mut device = device_with_msix(&mut file, 0x0007_0011, 0x0000_2003, 0xffff_fffd);
    let msix = device.get_msix_config(&file).unwrap();
    assert_eq!(msix.bir(&file), 3);
    assert_eq!(msix.table_offset(&file), 0x2000);
    assert_eq!(msix.pending_bit_bir(&file), 5);
    assert_eq!(msix.pending_bit_table_offset(&file), 0xffff_fff8);
}

#[test]
fn enable_sets_bit_15_and_keeps_the_rest() {
    let mut file = RegisterFile::new();
    let mut device = device_with_msix(&mut file, 0x4007_0011, 0x2000, 0x3002);
    let mut msix = device.get_msix_config(&file).unwrap();
    msix.enable(&mut file);
    assert!(msix.enabled(&file));
    assert_eq!(msix.message_control(&file), 0xc007);
    assert_eq!(file.read(ADDR, 0x50), 0xc007_0011);
}

#[test]
fn enable_twice_is_enable_once() {
    let mut file = RegisterFile::new();
    let mut device = device_with_msix(&mut file, 0x0007_0011, 0x0000_2003, 0x3002);
    let mut msix = device.get_msix_config(&file).unwrap();
    msix.enable(&mut file);
    let once = file.read(ADDR, 0x50);
    msix.enable(&mut file);
    assert_eq!(file.read(ADDR, 0x50), once);
    assert!(msix.enabled(&file));
    assert_eq!(msix.table_size(&file), 7);
    assert_eq!(msix.bir(&file), 3);
    assert_eq!(msix.table_offset(&file), 0x2000);
    assert_eq!(msix.pending_bit_bir(&file), 2);
    assert_eq!(msix.pending_bit_table_offset(&file), 0x3000);
}

#[test]
fn device_without_msix_has_no_config() {
    let mut file = RegisterFile::new();
    let mut device = device_with_msix(&mut file, 0x0007_0005, 0x2000, 0x3002);
    assert!(device.get_msix_config(&file).is_none());
    assert_eq!(device.msix_irq_table_region(&mut file), Ok(None));
    assert_eq!(file.read(ADDR, 0x50), 0x0007_0005);
}

#[test]
fn table_region_starts_at_bar_base_plus_offset() {
    let mut file = RegisterFile::new();
    let mut device = device_with_msix(&mut file, 0x0007_0011, 0x2000, 0x3002);
    assert_eq!(
        device.msix_irq_table_region(&mut file),
        Ok(Some(MsiXTableRegion { address: 0xfeb0_2000, entries: 8 }))
    );
    assert_eq!(file.read(ADDR, 0x50), 0x8007_0011);
    assert_eq!(file.read(ADDR, 0x10), 0xfeb0_0000);
}

#[test]
fn table_has_one_entry_more_than_the_size_field() {
    for size in [0u32, 1, 7, 63, 0x3ff] {
        let mut file = RegisterFile::new();
        let mut device = device_with_msix(&mut file, 0x0011 | size << 16, 0x2000, 0x3002);
        let region = device.msix_irq_table_region(&mut file).unwrap().unwrap();
        assert_eq!(region.entries, size as usize + 1);
    }
}

#[test]
fn table_region_of_an_enabled_device_writes_nothing_to_the_capability() {
    let mut file = RegisterFile::new();
    let mut device = device_with_msix(&mut file, 0xc003_0011, 0x0800, 0x3002);
    assert_eq!(
        device.msix_irq_table_region(&mut file),
        Ok(Some(MsiXTableRegion { address: 0xfeb0_0800, entries: 4 }))
    );
    assert_eq!(file.read(ADDR, 0x50), 0xc003_0011);
}

#[test]
fn table_in_an_unused_bar_is_an_error() {
    let mut file = RegisterFile::new();
    let mut device = device_with_msix(&mut file, 0x0007_0011, 0x2001, 0x3002);
    assert_eq!(device.msix_irq_table_region(&mut file), Err(MsiXTableError::BarUnused));
}

#[test]
fn table_in_a_bar_that_cannot_be_decoded_is_an_error() {
    let mut file = RegisterFile::new();
    let mut device = device_with_msix(&mut file, 0x0007_0011, 0x2007, 0x3002);
    assert_eq!(
        device.msix_irq_table_region(&mut file),
        Err(MsiXTableError::Bar(BarError::IndexOutOfRange))
    );
    let mut file = RegisterFile::new();
    let mut device = device_with_msix(&mut file, 0x0007_0011, 0x2002, 0x3002);
    assert!(file.set_register(ADDR, 0x18, 0x0000_c001, 0));
    assert_eq!(
        device.msix_irq_table_region(&mut file),
        Err(MsiXTableError::Bar(BarError::IoSpace))
    );
}

#[test]
fn locate_adds_offset_and_counts_entries() {
    let bar = Bar {
        region_type: BarType::Mem,
        prefetchable: false,
        address: 0x1_0000_0000,
        size: 0x4000,
    };
    assert_eq!(
        MsiXTableRegion::locate(Ok(Some(bar)), 0x1000, 15),
        Ok(Some(MsiXTableRegion { address: 0x1_0000_1000, entries: 16 }))
    );
    assert_eq!(MsiXTableRegion::locate(Ok(None), 0x1000, 15), Err(MsiXTableError::BarUnused));
    assert_eq!(
        MsiXTableRegion::locate(Err(BarError::UnsupportedLocatable(3)), 0, 0),
        Err(MsiXTableError::Bar(BarError::UnsupportedLocatable(3)))
    );
}

#[test]
fn locate_refuses_an_address_past_the_end() {
    let bar = Bar {
        region_type: BarType::Mem,
        prefetchable: false,
        address: 0xffff_ffff_ffff_f000,
        size: 0x1000,
    };
    assert_eq!(
        MsiXTableRegion::locate(Ok(Some(bar)), 0x0ff8, 0),
        Ok(Some(MsiXTableRegion { address: 0xffff_ffff_ffff_fff8, entries: 1 }))
    );
    assert_eq!(
        MsiXTableRegion::locate(Ok(Some(bar)), 0x1000, 0),
        Err(MsiXTableError::AddressOverflow)
    );
}
