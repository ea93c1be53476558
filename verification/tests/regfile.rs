use pci_config::pci::{PCIAddress, PciInterface, RegisterFile};

#[test]
fn empty_slot_reads_all_ones() {
    let file = RegisterFile::new();
    assert_eq!(file.read(PCIAddress::new(0, 0, 0), 0), u32::MAX);
    assert_eq!(file.read(PCIAddress::new(3, 4, 5), 0x10), u32::MAX);
}

#[test]
fn new_function_reads_zero_and_ignores_writes() {
    let mut file = RegisterFile::new();
    let addr = PCIAddress::new(0, 1, 0);
    file.add_function(addr);
    assert_eq!(file.read(addr, 0), 0);
    file.write(addr, 0x10, 0xdead_beef);
    assert_eq!(file.read(addr, 0x10), 0);
    assert_eq!(file.read(PCIAddress::new(0, 1, 1), 0), u32::MAX);
}

#[test]
fn write_changes_writable_bits_only() {
    let mut file = RegisterFile::new();
    let addr = PCIAddress::new(0, 1, 0);
    file.add_function(addr);
    assert!(file.set_register(addr, 0x10, 0x1234_5678, 0xffff_0000));
    file.write(addr, 0x10, 0xabcd_ef01);
    assert_eq!(file.read(addr, 0x10), 0xabcd_5678);
    file.write(addr, 0x10, u32::MAX);
    assert_eq!(file.read(addr, 0x10), 0xffff_5678);
}

#[test]
fn write_leaves_other_words_and_functions_alone() {
    let mut file = RegisterFile::new();
    let first = PCIAddress::new(0, 1, 0);
    let second = PCIAddress::new(0, 2, 0);
    file.add_function(first);
    file.add_function(second);
    for addr in [first, second] {
        for offset in [0x0c, 0x10, 0x14] {
            assert!(file.set_register(addr, offset, 0x1111_1111, u32::MAX));
        }
    }
    file.write(first, 0x10, 0x2222_2222);
    assert_eq!(file.read(first, 0x0c), 0x1111_1111);
    assert_eq!(file.read(first, 0x10), 0x2222_2222);
    assert_eq!(file.read(first, 0x14), 0x1111_1111);
    assert_eq!(file.read(second, 0x10), 0x1111_1111);
}

#[test]
fn reads_are_byte_addressed() {
    let mut file = RegisterFile::new();
    let addr = PCIAddress::new(0, 1, 0);
    file.add_function(addr);
    assert!(file.set_register(addr, 0x00, 0x4433_2211, 0));
    assert!(file.set_register(addr, 0x04, 0x8877_6655, 0));
    assert_eq!(file.read(addr, 0x01), 0x5544_3322);
    assert_eq!(file.read(addr, 0x02), 0x6655_4433);
    assert_eq!(file.read(addr, 0x03), 0x7766_5544);
}

#[test]
fn bytes_past_the_end_read_all_ones() {
    let mut file = RegisterFile::new();
    let addr = PCIAddress::new(0, 1, 0);
    file.add_function(addr);
    assert!(file.set_register(addr, 0xfc, 0x0403_0201, 0));
    assert_eq!(file.read(addr, 0xfc), 0x0403_0201);
    assert_eq!(file.read(addr, 0xfe), 0xffff_0403);
    assert_eq!(file.read(addr, 0x100), u32::MAX);
    assert!(!file.set_register(addr, 0x100, 0, 0));
    assert!(!file.set_register(PCIAddress::new(0, 9, 0), 0, 0, 0));
}

#[test]
fn first_function_at_an_address_answers() {
    let mut file = RegisterFile::new();
    let addr = PCIAddress::new(0, 1, 0);
    file.add_function(addr);
    assert!(file.set_register(addr, 0, 0x1, 0));
    file.add_function(addr);
    assert_eq!(file.read(addr, 0), 0x1);
}
