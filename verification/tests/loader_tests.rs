use mikan_os::frame_buffer_config::PixelFormat;
use mikan_os::loader::{
    calc_load_address_range, copy_load_segments, frame_buffer_format, get_memory_type_unicode,
    get_pixel_format_unicode, kernel_pages, load_segments_fit, memory_map_header,
    memory_map_line, save_memory_map, volume_bytes, Elf64Phdr, GopPixelFormat, MemoryRange,
    SegmentCopy, MAX_VOLUME_BYTES, PROGRAM_TYPE_LOAD,
};
use mikan_os::readfile::{head_lines, SHOWN_LINES};

fn phdr(kind: u32, vaddr: usize, offset: u64, filesz: u64, memsz: u64) -> Elf64Phdr {
    Elf64Phdr { kind, flags: 0, offset, vaddr, paddr: vaddr, filesz, memsz, align: 0x1000 }
}

#[test]
fn the_load_range_spans_the_segments_to_load() {
    let phdrs = [
        phdr(6, 0x40, 0x40, 0x100, 0x100),
        phdr(PROGRAM_TYPE_LOAD, 0x10_1000, 0x1000, 0x200, 0x300),
        phdr(PROGRAM_TYPE_LOAD, 0x10_0000, 0, 0x1000, 0x1000),
        phdr(PROGRAM_TYPE_LOAD, 0x10_3000, 0x2000, 0x10, 0x2000),
        phdr(2, 0xffff_0000, 0, 0, 0x5000),
    ];
    assert!(load_segments_fit(&phdrs));
    assert_eq!(calc_load_address_range(&phdrs), (0x10_0000, 0x10_5000));
    assert_eq!(kernel_pages(0x10_0000, 0x10_5000), 5);
}

#[test]
fn no_segment_to_load_gives_the_empty_range() {
    assert_eq!(calc_load_address_range(&[]), (usize::MAX, 0));
    assert_eq!(calc_load_address_range(&[phdr(2, 0x1000, 0, 1, 1)]), (usize::MAX, 0));
}

#[test]
fn segments_that_leave_the_address_space_do_not_fit() {
    assert!(!load_segments_fit(&[phdr(PROGRAM_TYPE_LOAD, usize::MAX, 0, 0, 1)]));
    assert!(load_segments_fit(&[phdr(PROGRAM_TYPE_LOAD, usize::MAX, 0, 0, 0)]));
    assert!(load_segments_fit(&[phdr(3, usize::MAX, 0, 0, 5)]));
}

#[test]
fn pages_are_rounded_up() {
    assert_eq!(kernel_pages(0x1000, 0x1000), 0);
    assert_eq!(kernel_pages(0x1000, 0x1001), 1);
    assert_eq!(kernel_pages(0x1000, 0x2000), 1);
    assert_eq!(kernel_pages(0x1234, 0x3235), 3);
}

#[test]
fn each_segment_is_copied_and_its_rest_zeroed() {
    let phdrs = [
        phdr(PROGRAM_TYPE_LOAD, 0x10_0000, 0x100, 0x80, 0x200),
        phdr(6, 0, 0, 0, 0),
        phdr(PROGRAM_TYPE_LOAD, 0x20_0000, 0x400, 0x40, 0x40),
    ];
    assert_eq!(
        copy_load_segments(0x9000, &phdrs),
        Some(vec![
            SegmentCopy {
                source: 0x9100,
                target: 0x10_0000,
                copy_bytes: 0x80,
                zero_from: 0x10_0080,
                zero_bytes: 0x180,
            },
            SegmentCopy {
                source: 0x9400,
                target: 0x20_0000,
                copy_bytes: 0x40,
                zero_from: 0x20_0040,
                zero_bytes: 0,
            },
        ])
    );
    assert_eq!(copy_load_segments(0, &[]), Some(vec![]));
    assert_eq!(copy_load_segments(0, &[phdr(PROGRAM_TYPE_LOAD, 0, 0, 9, 8)]), None);
    assert_eq!(copy_load_segments(usize::MAX, &[phdr(PROGRAM_TYPE_LOAD, 0, 1, 0, 0)]), None);
}

#[test]
fn volumes_are_read_up_to_the_limit() {
    assert_eq!(volume_bytes(512, 9), 5120);
    assert_eq!(volume_bytes(512, 65535), MAX_VOLUME_BYTES);
    assert_eq!(volume_bytes(512, 65536), MAX_VOLUME_BYTES);
    assert_eq!(volume_bytes(4096, u64::MAX - 1), MAX_VOLUME_BYTES);
    assert_eq!(volume_bytes(0, 100), 0);
    assert_eq!(volume_bytes(u32::MAX, MAX_VOLUME_BYTES - 1), MAX_VOLUME_BYTES);
    assert_eq!(MAX_VOLUME_BYTES, 32 * 1024 * 1024);
}

#[test]
fn pixel_formats_have_names_and_two_are_drawn() {
    assert_eq!(frame_buffer_format(GopPixelFormat::Rgb), Some(PixelFormat::Rgb));
    assert_eq!(frame_buffer_format(GopPixelFormat::Bgr), Some(PixelFormat::Bgr));
    assert_eq!(frame_buffer_format(GopPixelFormat::Bitmask), None);
    assert_eq!(frame_buffer_format(GopPixelFormat::BltOnly), None);
    assert_eq!(
        get_pixel_format_unicode(GopPixelFormat::Rgb),
        "PixelRedGreenBlueReserved8bitPerColor"
    );
    assert_eq!(
        get_pixel_format_unicode(GopPixelFormat::Bgr),
        "PixelBlueGreenRedReserved8BitPerColor"
    );
    assert_eq!(get_pixel_format_unicode(GopPixelFormat::Bitmask), "PixelBitMask");
    assert_eq!(get_pixel_format_unicode(GopPixelFormat::BltOnly), "PixelBltOnly");
}

#[test]
fn memory_types_have_names() {
    let names: Vec<&str> = (0..16).map(get_memory_type_unicode).collect();
    assert_eq!(
        names,
        vec![
            "EfiReservedMemoryType",
            "EfiLoaderCode",
            "EfiLoaderData",
            "EfiBootServicesCode",
            "EfiBootServicesData",
            "EfiRuntimeServicesCode",
            "EfiRuntimeServicesData",
            "EfiConventionalMemory",
            "EfiUnusableMemory",
            "EfiACPIReclaimMemory",
            "EfiAcpiMemoryNVS",
            "EfiMemoryMappedIO",
            "EfiMemoryMappedIOPortSpace",
            "EfiPalCode",
            "EfiPersistentMemory",
            "InvalidMemoryType",
        ]
    );
    assert_eq!(get_memory_type_unicode(u32::MAX), "InvalidMemoryType");
}

#[test]
fn the_memory_map_is_written_line_by_line() {
    let ranges = [
        MemoryRange { memory_type: 7, phys_start: 0x10_0000, page_count: 1792, attribute: 15 },
        MemoryRange { memory_type: 3, phys_start: 0, page_count: 1, attribute: 0 },
        MemoryRange {
            memory_type: 99,
            phys_start: 0x1_0000_0000,
            page_count: 2,
            attribute: 0x8000_0000_0000_000f,
        },
    ];
    assert_eq!(
        memory_map_line(0, &ranges[0]),
        "0, 7, EfiConventionalMemory, 00100000, 1792, 15\n"
    );
    assert_eq!(
        memory_map_header(),
        "Index, Type, Type(name), PhysicalStart, NumberOfPages, Attribute\n"
    );
    assert_eq!(
        save_memory_map(&ranges),
        "Index, Type, Type(name), PhysicalStart, NumberOfPages, Attribute\n\
         0, 7, EfiConventionalMemory, 00100000, 1792, 15\n\
         1, 3, EfiBootServicesCode, 00000000, 1, 0\n\
         2, 99, InvalidMemoryType, 100000000, 2, 9223372036854775823\n"
    );
    assert_eq!(save_memory_map(&[]), memory_map_header());
}

#[test]
fn the_first_lines_of_a_file_are_shown() {
    assert_eq!(SHOWN_LINES, 3);
    assert_eq!(head_lines(b"", 3), 0);
    assert_eq!(head_lines(b"one\ntwo", 3), 7);
    assert_eq!(head_lines(b"one\ntwo\nthree\nfour\n", 3), 14);
    assert_eq!(head_lines(b"one\ntwo\nthree\n", 3), 14);
    assert_eq!(head_lines(b"\n\n\n\n", 3), 3);
    assert_eq!(head_lines(b"one\ntwo\n", 0), 0);
    assert_eq!(head_lines(b"one\ntwo\n", 1), 4);
}
