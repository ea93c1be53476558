use pci_config::pci::{Bar, BarError, BarType, PCIAddress, PciDevice, PciInterface, RegisterFile};

fn endpoint(file: &mut RegisterFile, addr: PCIAddress) -> PciDevice {
    file.add_function(addr);
    assert!(file.set_register(addr, 0x00, 0x100e_8086, 0));
    PciDevice::new(file, addr.bus, addr.dev, addr.fun).unwrap()
}

#[test]
fn size_of_mask_ffff0000_is_64k() {
    assert_eq!(Bar::size32(0xffff_0000), Some(0x1_0000));
}

#[test]
fn size_is_inverted_mask_plus_one() {
    assert_eq!(Bar::size32(0xffff_fff0), Some(0x10));
    assert_eq!(Bar::size32(0xffff_f000), Some(0x1000));
    assert_eq!(Bar::size32(0xfff0_0000), Some(0x10_0000));
    assert_eq!(Bar::size32(0x8000_0000), Some(0x8000_0000));
    assert_eq!(Bar::size64(0xffff_ffff_fff0_0000), Some(0x10_0000));
    assert_eq!(Bar::size64(0xffff_fffe_0000_0000), Some(0x2_0000_0000));
    let mut mask: u32 = 0xffff_fff0;
    while mask != 0 {
        assert_eq!(Bar::size32(mask), Some((!mask).wrapping_add(1)));
        assert_eq!(Bar::size32(mask).map(u64::from), Some(0x1_0000_0000 - u64::from(mask)));
        mask <<= 1;
    }
}

#[test]
fn size_ignores_the_type_bits() {
    assert_eq!(Bar::size32(0xffff_000c), Some(0x1_0000));
    assert_eq!(Bar::size32(0xffff_000f), Some(0x1_0000));
    assert_eq!(Bar::size64(0xffff_ffff_ffff_000c), Some(0x1_0000));
}

#[test]
fn size_without_address_bits_is_refused() {
    assert_eq!(Bar::size32(0), None);
    assert_eq!(Bar::size32(0xf), None);
    assert_eq!(Bar::size64(0), None);
    assert_eq!(Bar::size64(0x8), None);
}

#[test]
fn bar_type_from_io_bit() {
    assert_eq!(BarType::from(true), BarType::IO);
    assert_eq!(BarType::from(false), BarType::Mem);
}

#[test]
fn decode_memory32_reads_flags_address_and_size() {
    assert_eq!(
        Bar::decode_memory32(0xfeb0_0008, 0xffff_0008),
        Ok(Bar {
            region_type: BarType::Mem,
            prefetchable: true,
            address: 0xfeb0_0000,
            size: 0x1_0000,
        })
    );
    assert_eq!(
        Bar::decode_memory32(0xfeb0_0000, 0xffff_f000),
        Ok(Bar {
            region_type: BarType::Mem,
            prefetchable: false,
            address: 0xfeb0_0000,
            size: 0x1000,
        })
    );
    assert_eq!(
        Bar::decode_memory32(0xfeb0_0000, 0x0000_000e),
        Err(BarError::UnrepresentableSize)
    );
}

#[test]
fn decode_memory64_joins_both_registers() {
    assert_eq!(
        Bar::decode_memory64(0xe000_000c, 0x0000_0001, 0xfff0_000c, 0xffff_ffff),
        Ok(Bar {
            region_type: BarType::Mem,
            prefetchable: true,
            address: 0x1_e000_0000,
            size: 0x10_0000,
        })
    );
    assert_eq!(
        Bar::decode_memory64(0x0000_0004, 0x0000_0020, 0x0000_0004, 0xffff_fffc),
        Ok(Bar {
            region_type: BarType::Mem,
            prefetchable: false,
            address: 0x20_0000_0000,
            size: 0x4_0000_0000,
        })
    );
    assert_eq!(
        Bar::decode_memory64(0x0000_0004, 0, 0x0000_0004, 0),
        Err(BarError::UnrepresentableSize)
    );
}

#[test]
fn bar_decodes_a_32_bit_memory_register() {
    let mut file = RegisterFile::new();
    let addr = PCIAddress::new(0, 3, 0);
    let mut device = endpoint(&mut file, addr);
    assert!(file.set_register(addr, 0x10, 0xfeb0_0000, 0xffff_0000));
    let expected = Bar {
        region_type: BarType::Mem,
        prefetchable: false,
        address: 0xfeb0_0000,
        size: 0x1_0000,
    };
    assert_eq!(device.bar(&mut file, 0), Some(expected));
    assert_eq!(device.try_bar(&mut file, 0), Ok(Some(expected)));
}

#[test]
fn bar_decodes_the_last_register_of_an_endpoint() {
    let mut file = RegisterFile::new();
    let addr = PCIAddress::new(0, 3, 0);
    let mut device = endpoint(&mut file, addr);
    assert!(file.set_register(addr, 0x24, 0xc000_0008, 0xffff_f000));
    assert_eq!(
        device.bar(&mut file, 5),
        Some(Bar {
            region_type: BarType::Mem,
            prefetchable: true,
            address: 0xc000_0000,
            size: 0x1000,
        })
    );
}

#[test]
fn bar_decodes_a_64_bit_register_pair() {
    let mut file = RegisterFile::new();
    let addr = PCIAddress::new(0, 3, 0);
    let mut device = endpoint(&mut file, addr);
    assert!(file.set_register(addr, 0x18, 0xe000_000c, 0xfff0_0000));
    assert!(file.set_register(addr, 0x1c, 0x0000_0001, 0xffff_ffff));
    assert_eq!(
        device.bar(&mut file, 2),
        Some(Bar {
            region_type: BarType::Mem,
            prefetchable: true,
            address: 0x1_e000_0000,
            size: 0x10_0000,
        })
    );
}

#[test]
fn bar_query_restores_the_probed_register() {
    let mut file = RegisterFile::new();
    let addr = PCIAddress::new(0, 3, 0);
    let mut device = endpoint(&mut file, addr);
    assert!(file.set_register(addr, 0x10, 0xfeb0_0000, 0xffff_0000));
    assert!(file.set_register(addr, 0x14, 0x1234_0000, 0xffff_0000));
    assert!(device.bar(&mut file, 0).is_some());
    assert_eq!(file.read(addr, 0x10), 0xfeb0_0000);
    assert_eq!(file.read(addr, 0x14), 0x1234_0000);
}

#[test]
fn bar_query_restores_both_registers_of_a_pair() {
    let mut file = RegisterFile::new();
    let addr = PCIAddress::new(0, 3, 0);
    let mut device = endpoint(&mut file, addr);
    assert!(file.set_register(addr, 0x18, 0xe000_000c, 0xfff0_0000));
    assert!(file.set_register(addr, 0x1c, 0x0000_0001, 0xffff_ffff));
    assert!(file.set_register(addr, 0x20, 0x5550_0000, 0xffff_0000));
    assert!(device.bar(&mut file, 2).is_some());
    assert_eq!(file.read(addr, 0x18), 0xe000_000c);
    assert_eq!(file.read(addr, 0x1c), 0x0000_0001);
    assert_eq!(file.read(addr, 0x20), 0x5550_0000);
}

#[test]
fn unused_bar_gives_no_result() {
    let mut file = RegisterFile::new();
    let addr = PCIAddress::new(0, 3, 0);
    let mut device = endpoint(&mut file, addr);
    assert_eq!(device.bar(&mut file, 1), None);
    assert_eq!(device.try_bar(&mut file, 1), Ok(None));
}

#[test]
fn io_bar_is_refused_before_any_write() {
    let mut file = RegisterFile::new();
    let addr = PCIAddress::new(0, 3, 0);
    let mut device = endpoint(&mut file, addr);
    assert!(file.set_register(addr, 0x14, 0x0000_c001, 0x0000_ffe0));
    assert_eq!(device.try_bar(&mut file, 1), Err(BarError::IoSpace));
    assert_eq!(file.read(addr, 0x14), 0x0000_c001);
}

#[test]
fn reserved_type_field_is_refused() {
    let mut file = RegisterFile::new();
    let addr = PCIAddress::new(0, 3, 0);
    let mut device = endpoint(&mut file, addr);
    assert!(file.set_register(addr, 0x10, 0xfeb0_0002, 0xffff_0000));
    assert!(file.set_register(addr, 0x14, 0xfeb0_0006, 0xffff_0000));
    assert_eq!(device.try_bar(&mut file, 0), Err(BarError::UnsupportedLocatable(1)));
    assert_eq!(device.try_bar(&mut file, 1), Err(BarError::UnsupportedLocatable(3)));
    assert_eq!(file.read(addr, 0x10), 0xfeb0_0002);
}

#[test]
fn unused_bar_with_reserved_type_field_gives_no_result() {
    let mut file = RegisterFile::new();
    let addr = PCIAddress::new(0, 3, 0);
    let mut device = endpoint(&mut file, addr);
    assert!(file.set_register(addr, 0x10, 0x0000_0000, 0x0000_0000));
    assert_eq!(device.try_bar(&mut file, 0), Ok(None));
}

#[test]
fn size_mask_without_address_bits_is_refused() {
    let mut file = RegisterFile::new();
    let addr = PCIAddress::new(0, 3, 0);
    let mut device = endpoint(&mut file, addr);
    assert!(file.set_register(addr, 0x10, 0x0000_0008, 0x0000_0000));
    assert_eq!(device.try_bar(&mut file, 0), Err(BarError::UnrepresentableSize));
}

#[test]
fn index_past_the_layout_is_refused() {
    let mut file = RegisterFile::new();
    let addr = PCIAddress::new(0, 3, 0);
    let mut device = endpoint(&mut file, addr);
    assert_eq!(device.try_bar(&mut file, 6), Err(BarError::IndexOutOfRange));
    assert_eq!(device.try_bar(&mut file, 255), Err(BarError::IndexOutOfRange));
    assert!(file.set_register(addr, 0x0c, 0x0001_0000, 0));
    assert_eq!(device.try_bar(&mut file, 1), Ok(None));
    assert_eq!(device.try_bar(&mut file, 2), Err(BarError::IndexOutOfRange));
}

#[test]
fn bridge_has_two_bars() {
    let mut file = RegisterFile::new();
    let addr = PCIAddress::new(0, 3, 0);
    let mut device = endpoint(&mut file, addr);
    assert!(file.set_register(addr, 0x0c, 0x0081_0000, 0));
    assert!(file.set_register(addr, 0x14, 0xd000_0000, 0xf000_0000));
    assert_eq!(
        device.bar(&mut file, 1),
        Some(Bar {
            region_type: BarType::Mem,
            prefetchable: false,
            address: 0xd000_0000,
            size: 0x1000_0000,
        })
    );
}

#[test]
fn unknown_header_layout_has_no_bars() {
    let mut file = RegisterFile::new();
    let addr = PCIAddress::new(0, 3, 0);
    let mut device = endpoint(&mut file, addr);
    assert!(file.set_register(addr, 0x0c, 0x0002_0000, 0));
    assert!(file.set_register(addr, 0x10, 0xfeb0_0000, 0xffff_0000));
    assert_eq!(device.bar(&mut file, 0), None);
    assert_eq!(device.bar(&mut file, 200), None);
    assert_eq!(device.try_bar(&mut file, 7), Ok(None));
}
