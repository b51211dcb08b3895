use mikan_os::bitfield::{mask_u32, mask_u64, mask_u8, BitField};
use mikan_os::paging::{
    init, setup_indentity_page_table, IdentityMap, PageTable, PAGE_DIRECTORY_COUNT, PAGE_SIZE_1G,
    PAGE_SIZE_2M, PAGE_SIZE_4K,
};
use mikan_os::segment::{setup_segments, SegmentDescriptor};
use mikan_os::x86_descriptor::{DescriptorType, DescriptorTypeEnum, SystemSegmentType};

#[test]
fn bits_are_read() {
    assert!(0b1000_0000u8.get_bit(7));
    assert!(!0b1000_0000u8.get_bit(6));
    assert_eq!(0xabcd_1234u32.get_bits(0, 16), 0x1234);
    assert_eq!(0xabcd_1234u32.get_bits(16, 24), 0xcd);
    assert_eq!(0xabcd_1234u32.get_bits(24, 32), 0xab);
    assert_eq!(0xabcd_1234u32.get_bits(0, 32), 0xabcd_1234);
    assert_eq!(0x1122_3344_5566_7788u64.get_bits(32, 64), 0x1122_3344);
    assert_eq!(0x1122_3344_5566_7788u64.get_bits(0, 32), 0x5566_7788);
    assert_eq!(0xf0u8.get_bits(4, 8), 0xf);
}

#[test]
fn bits_are_written() {
    let mut byte = 0u8;
    byte.set_bit(7, true);
    assert_eq!(byte, 0x80);
    byte.set_bits(0, 5, 0b10110);
    assert_eq!(byte, 0x96);
    byte.set_bits(5, 7, 0b11);
    assert_eq!(byte, 0xf6);
    byte.set_bit(7, false);
    assert_eq!(byte, 0x76);
    byte.set_bits(0, 8, 0x12);
    assert_eq!(byte, 0x12);
    let mut word = 0xffff_ffffu32;
    word.set_bits(8, 16, 0);
    assert_eq!(word, 0xffff_00ff);
    let mut long = 0u64;
    long.set_bits(32, 64, 0xdead_beef);
    long.set_bit(0, true);
    assert_eq!(long, 0xdead_beef_0000_0001);
}

#[test]
fn masks_have_their_low_bits_set() {
    assert_eq!(mask_u8(0), 0);
    assert_eq!(mask_u8(3), 0b111);
    assert_eq!(mask_u8(8), 0xff);
    assert_eq!(mask_u32(20), 0xf_ffff);
    assert_eq!(mask_u32(32), u32::MAX);
    assert_eq!(mask_u64(33), 0x1_ffff_ffff);
    assert_eq!(mask_u64(64), u64::MAX);
}

#[test]
fn descriptor_types_are_read_back() {
    let code = DescriptorType::code_data_segment(false, true, false, true);
    assert_eq!(code.to_raw(), 0b11010);
    assert!(code.is_code_data_segment());
    assert!(!code.is_system_segment());
    assert_eq!(
        code.get(),
        DescriptorTypeEnum::Code { accessed: false, readable: true, conforming: false }
    );
    let data = DescriptorType::code_data_segment(true, true, true, false);
    assert_eq!(data.to_raw(), 0b10111);
    assert_eq!(
        data.get(),
        DescriptorTypeEnum::Data { accessed: true, writable: true, direction: true }
    );
    let gate = DescriptorType::system_segment(SystemSegmentType::InterruptGate);
    assert_eq!(gate.to_raw(), 14);
    assert!(gate.is_system_segment());
    assert_eq!(gate.get(), DescriptorTypeEnum::System(SystemSegmentType::InterruptGate));
    assert_eq!(DescriptorType::from_raw(0xe0 | 9).to_raw(), 9);
    assert_eq!(DescriptorType::from_raw(3).get(), DescriptorTypeEnum::Reserved(3));
    assert_eq!(SystemSegmentType::from_code(11), Some(SystemSegmentType::TaskStateSegmentBusy));
    assert_eq!(SystemSegmentType::from_code(0), None);
    assert_eq!(SystemSegmentType::CallGate.code(), 12);
}

#[test]
fn a_code_segment_has_its_fields() {
    let code = SegmentDescriptor::code_segment(0x1234_5678, 0xabcde, false, true, false, 3);
    assert_eq!(code.limit_low, 0xbcde);
    assert_eq!(code.base_low, 0x5678);
    assert_eq!(code.base_middle, 0x34);
    assert_eq!(code.base_high, 0x12);
    assert_eq!(code.etc_1, 0b1111_1010);
    assert_eq!(code.etc_2, 0b1010_1010);
    assert_eq!(code.base(), 0x1234_5678);
    assert_eq!(code.descriptor_privilege_level(), 3);
    assert!(code.present());
    assert!(!code.available());
    assert!(code.long_mode());
    assert!(!code.default_operation_size());
    assert!(code.granalarity());
    assert!(code.is_code_data_segment());
    assert!(!code.is_system_segment());
    assert_eq!(
        code.kind(),
        DescriptorTypeEnum::Code { accessed: false, readable: true, conforming: false }
    );
    assert_eq!(code.type_raw().to_raw(), 0b11010);
    assert_eq!(code.limit(), 0xa_bcde);
    assert_eq!(code.to_bytes(), [0xde, 0xbc, 0x78, 0x56, 0x34, 0xfa, 0xaa, 0x12]);
}

#[test]
fn a_data_segment_has_its_fields() {
    let data = SegmentDescriptor::data_segment(0, 0xfffff, false, true, true, 0);
    assert_eq!(data.to_bytes(), [0xff, 0xff, 0, 0, 0, 0b1001_0110, 0b1100_1111, 0]);
    assert!(!data.long_mode());
    assert!(data.default_operation_size());
    assert_eq!(
        data.kind(),
        DescriptorTypeEnum::Data { accessed: false, writable: true, direction: true }
    );
    assert_eq!(data.limit(), 0xc_ffff);
}

#[test]
fn a_system_segment_has_its_fields() {
    let tss = SegmentDescriptor::system_segment(
        0xffee_ddcc,
        0x67,
        SystemSegmentType::TaskStateSegmentAvailable,
        0,
    );
    assert_eq!(tss.to_bytes(), [0x67, 0, 0xcc, 0xdd, 0xee, 0b1000_1001, 0b1100_0000, 0xff]);
    assert!(tss.is_system_segment());
    assert_eq!(tss.kind(), DescriptorTypeEnum::System(SystemSegmentType::TaskStateSegmentAvailable));
    assert_eq!(tss.base(), 0xffee_ddcc);
}

#[test]
fn the_kernel_table_holds_null_code_and_data() {
    let (table, bytes) = setup_segments();
    assert_eq!(bytes, 24);
    assert_eq!(table[0], SegmentDescriptor::default());
    assert_eq!(table[0].to_bytes(), [0; 8]);
    assert_eq!(table[1].to_bytes(), [0xff, 0xff, 0, 0, 0, 0x9a, 0xaf, 0]);
    assert_eq!(table[2].to_bytes(), [0xff, 0xff, 0, 0, 0, 0x96, 0xcf, 0]);
}

#[test]
fn page_tables_are_filled_and_indexed() {
    let mut table = PageTable::<u64, 512>::new(7);
    assert_eq!(table.len(), 512);
    assert_eq!(*table.index(0), 7);
    assert_eq!(*table.index(511), 7);
    *table.index_mut(3) = 9;
    assert_eq!(*table.index(3), 9);
    assert_eq!(*table.index(2), 7);
}

#[test]
fn the_identity_mapping_maps_each_page_to_itself() {
    let mut map = IdentityMap::new();
    let cr3 = setup_indentity_page_table(&mut map, 0x1000, 0x2000, 0x10_0000);
    assert_eq!(cr3, 0x1000);
    assert_eq!(*map.pml4_table.index(0), 0x2003);
    assert_eq!(*map.pml4_table.index(1), 0);
    for i in 0..PAGE_DIRECTORY_COUNT {
        assert_eq!(*map.pdp_table.index(i), (0x10_0000 + i as u64 * PAGE_SIZE_4K) | 3);
        for j in 0..512 {
            let entry = map.page_directory.index(i)[j];
            let address = i as u64 * PAGE_SIZE_1G + j as u64 * PAGE_SIZE_2M;
            assert_eq!(entry, address | 0x83);
            assert_eq!(entry & !0x1f_ffff, address);
        }
    }
    assert_eq!(*map.pdp_table.index(PAGE_DIRECTORY_COUNT), 0);
    assert_eq!(map.page_directory.index(1)[1], 0x4020_0083);
    let mut again = IdentityMap::new();
    assert_eq!(init(&mut again, 0x5000, 0x6000, 0x20_0000), 0x5000);
    assert_eq!(again.page_directory.table, map.page_directory.table);
    assert_eq!(*again.pml4_table.index(0), 0x6003);
}
