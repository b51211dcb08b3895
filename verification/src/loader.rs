//! What the boot loader computes: where the segments of the kernel image go,
//! how much memory they need, and the lines of the memory map that it
//! writes to a file.

use vstd::prelude::*;
use vstd::string::*;

use crate::frame_buffer_config::PixelFormat;
use crate::text::{decimal, decimal_digits, hex_digits, hex_padded, zero_padded};

verus! {

/// The type of a program header whose segment is loaded into memory.
pub const PROGRAM_TYPE_LOAD: u32 = 1;

/// The size of a page.
pub const PAGE_BYTES: usize = 0x1000;

/// The most bytes of a volume that the loader reads.
pub const MAX_VOLUME_BYTES: u64 = 0x200_0000;

/// A program header of a 64-bit ELF file.
#[derive(Clone, Copy, PartialEq, Eq, Structural, Debug)]
pub struct Elf64Phdr {
    pub kind: u32,
    pub flags: u32,
    pub offset: u64,
    pub vaddr: usize,
    pub paddr: usize,
    pub filesz: u64,
    pub memsz: u64,
    pub align: u64,
}

impl Elf64Phdr {
    /// Whether the segment is loaded into memory.
    pub open spec fn is_load(self) -> bool {
        self.kind == PROGRAM_TYPE_LOAD
    }

    /// The address just above the segment in memory.
    pub open spec fn end(self) -> int {
        self.vaddr + self.memsz
    }
}

/// Whether the end of every segment to load is an address.
pub open spec fn segments_fit(phdrs: Seq<Elf64Phdr>) -> bool {
    forall|i: int| 0 <= i < phdrs.len() && (#[trigger] phdrs[i]).is_load() ==> phdrs[i].end()
        <= usize::MAX
}

/// Whether the end of every segment to load is an address.
pub fn load_segments_fit(phdrs: &[Elf64Phdr]) -> (fit: bool)
    ensures
        fit == segments_fit(phdrs@),
{
    let mut i: usize = 0;
    while i < phdrs.len()
        invariant
            i <= phdrs@.len(),
            forall|k: int| 0 <= k < i && (#[trigger] phdrs@[k]).is_load() ==> phdrs@[k].end()
                <= usize::MAX,
        decreases phdrs@.len() - i,
    {
        let phdr = &phdrs[i];
        if phdr.kind == PROGRAM_TYPE_LOAD {
            if phdr.memsz > (usize::MAX - phdr.vaddr) as u64 {
                assert(phdrs@[i as int].is_load() && phdrs@[i as int].end() > usize::MAX);
                return false;
            }
        }
        i = i + 1;
    }
    true
}

/// The lowest address and the address above the highest at which the
/// segments to load lie: `(usize::MAX, 0)` if there is none. The end of
/// every segment to load is an address.
pub fn calc_load_address_range(phdrs: &[Elf64Phdr]) -> (range: (usize, usize))
    requires
        segments_fit(phdrs@),
    ensures
        forall|i: int|
            0 <= i < phdrs@.len() && (#[trigger] phdrs@[i]).is_load() ==> range.0 <= phdrs@[i].vaddr
                && phdrs@[i].end() <= range.1,
        range.0 == usize::MAX || exists|i: int|
            0 <= i < phdrs@.len() && (#[trigger] phdrs@[i]).is_load() && phdrs@[i].vaddr == range.0,
        range.1 == 0 || exists|i: int|
            0 <= i < phdrs@.len() && (#[trigger] phdrs@[i]).is_load() && phdrs@[i].end() == range.1,
{
    let mut first: usize = usize::MAX;
    let mut last: usize = 0;
    let mut i: usize = 0;
    while i < phdrs.len()
        invariant
            i <= phdrs@.len(),
            segments_fit(phdrs@),
            forall|k: int|
                0 <= k < i && (#[trigger] phdrs@[k]).is_load() ==> first <= phdrs@[k].vaddr
                    && phdrs@[k].end() <= last,
            first == usize::MAX || exists|k: int|
                0 <= k < i && (#[trigger] phdrs@[k]).is_load() && phdrs@[k].vaddr == first,
            last == 0 || exists|k: int|
                0 <= k < i && (#[trigger] phdrs@[k]).is_load() && phdrs@[k].end() == last,
        decreases phdrs@.len() - i,
    {
        let phdr = &phdrs[i];
        if phdr.kind == PROGRAM_TYPE_LOAD {
            assert(phdrs@[i as int].is_load());
            if phdr.vaddr < first {
                first = phdr.vaddr;
            }
            let end = phdr.vaddr + phdr.memsz as usize;
            if end > last {
                last = end;
            }
        }
        i = i + 1;
    }
    (first, last)
}

/// The number of pages that hold the addresses from `first` up to `last`,
/// which is not below `first`: the bytes between them, rounded up to whole
/// pages.
pub fn kernel_pages(first: usize, last: usize) -> (pages: usize)
    requires
        first <= last,
        last - first + 0xfff <= usize::MAX,
    ensures
        pages == (last - first + 0xfff) / 0x1000,
        pages * PAGE_BYTES >= last - first,
        pages * PAGE_BYTES < last - first + PAGE_BYTES,
{
    (last - first + 0xfff) / PAGE_BYTES
}

/// What is done with one segment to load: `copy_bytes` bytes are copied from
/// `source` to `target`, and `zero_bytes` bytes from `zero_from` on are set
/// to zero.
#[derive(Clone, Copy, PartialEq, Eq, Structural, Debug)]
pub struct SegmentCopy {
    pub source: usize,
    pub target: usize,
    pub copy_bytes: usize,
    pub zero_from: usize,
    pub zero_bytes: usize,
}

/// What is done with the segment `phdr` of an image that lies at
/// `src_base`: the part that the file holds is copied to the address of the
/// segment, and the rest of the segment is set to zero.
pub open spec fn segment_copy(src_base: usize, phdr: Elf64Phdr) -> SegmentCopy {
    SegmentCopy {
        source: (src_base + phdr.offset) as usize,
        target: phdr.vaddr,
        copy_bytes: phdr.filesz as usize,
        zero_from: (phdr.vaddr + phdr.filesz) as usize,
        zero_bytes: (phdr.memsz - phdr.filesz) as usize,
    }
}

/// Whether the segment `phdr` of an image at `src_base` can be copied: the
/// file holds no more of it than memory does, and the part in the file ends
/// at an address.
pub open spec fn segment_copies(src_base: usize, phdr: Elf64Phdr) -> bool {
    &&& phdr.filesz <= phdr.memsz
    &&& phdr.end() <= usize::MAX
    &&& src_base + phdr.offset + phdr.filesz <= usize::MAX
}

/// The segments to load among `phdrs`, in their order.
pub open spec fn load_segments(phdrs: Seq<Elf64Phdr>) -> Seq<Elf64Phdr> {
    phdrs.filter(|phdr: Elf64Phdr| phdr.is_load())
}

/// What is done with each segment to load of the image at `src_base`, in
/// the order of the program headers; `None` if one of them cannot be
/// copied.
pub fn copy_load_segments(src_base: usize, phdrs: &[Elf64Phdr]) -> (plan: Option<Vec<SegmentCopy>>)
    ensures
        plan is Some <==> forall|i: int|
            0 <= i < phdrs@.len() && (#[trigger] phdrs@[i]).is_load() ==> segment_copies(
                src_base,
                phdrs@[i],
            ),
        plan matches Some(steps) ==> steps@ == load_segments(phdrs@).map_values(
            |phdr: Elf64Phdr| segment_copy(src_base, phdr),
        ),
{
    let mut steps: Vec<SegmentCopy> = Vec::new();
    let mut i: usize = 0;
    proof {
        assert(phdrs@.take(0) =~= Seq::<Elf64Phdr>::empty());
        reveal(Seq::filter);
        assert(load_segments(phdrs@.take(0)) =~= Seq::<Elf64Phdr>::empty());
    }
    while i < phdrs.len()
        invariant
            i <= phdrs@.len(),
            forall|k: int|
                0 <= k < i && (#[trigger] phdrs@[k]).is_load() ==> segment_copies(
                    src_base,
                    phdrs@[k],
                ),
            steps@ == load_segments(phdrs@.take(i as int)).map_values(
                |phdr: Elf64Phdr| segment_copy(src_base, phdr),
            ),
        decreases phdrs@.len() - i,
    {
        let phdr = &phdrs[i];
        proof {
            reveal(Seq::filter);
            assert(phdrs@.take(i + 1).drop_last() =~= phdrs@.take(i as int));
            assert(phdrs@.take(i + 1).last() == *phdr);
        }
        if phdr.kind == PROGRAM_TYPE_LOAD {
            assert(phdrs@[i as int].is_load());
            if phdr.filesz > phdr.memsz || phdr.memsz > (usize::MAX - phdr.vaddr) as u64
                || phdr.offset > (usize::MAX - src_base) as u64 || phdr.filesz > (usize::MAX
                - src_base) as u64 - phdr.offset {
                return None;
            }
            let step = SegmentCopy {
                source: src_base + phdr.offset as usize,
                target: phdr.vaddr,
                copy_bytes: phdr.filesz as usize,
                zero_from: phdr.vaddr + phdr.filesz as usize,
                zero_bytes: (phdr.memsz - phdr.filesz) as usize,
            };
            proof {
                let convert = |phdr: Elf64Phdr| segment_copy(src_base, phdr);
                assert(load_segments(phdrs@.take(i + 1)) =~= load_segments(
                    phdrs@.take(i as int),
                ).push(*phdr));
                assert(load_segments(phdrs@.take(i as int)).push(*phdr).map_values(convert)
                    =~= load_segments(phdrs@.take(i as int)).map_values(convert).push(step));
            }
            steps.push(step);
        } else {
            proof {
                assert(load_segments(phdrs@.take(i + 1)) =~= load_segments(phdrs@.take(i as int)));
            }
        }
        i = i + 1;
    }
    proof {
        assert(phdrs@.take(phdrs@.len() as int) =~= phdrs@);
    }
    Some(steps)
}

/// The number of bytes of a volume with blocks of `block_size` bytes, the
/// last of which has the number `last_block`, that the loader reads: all of
/// them, but no more than `MAX_VOLUME_BYTES`.
pub fn volume_bytes(block_size: u32, last_block: u64) -> (bytes: u64)
    ensures
        bytes == (if block_size * (last_block + 1) > MAX_VOLUME_BYTES {
            MAX_VOLUME_BYTES as int
        } else {
            block_size * (last_block + 1)
        }),
{
    if block_size == 0 {
        assert(block_size * (last_block + 1) == 0) by (nonlinear_arith)
            requires
                block_size == 0,
        ;
        return 0;
    }
    if last_block >= MAX_VOLUME_BYTES {
        assert(block_size * (last_block + 1) > MAX_VOLUME_BYTES) by (nonlinear_arith)
            requires
                block_size >= 1,
                last_block >= MAX_VOLUME_BYTES,
        ;
        return MAX_VOLUME_BYTES;
    }
    assert(block_size * (last_block + 1) <= 0xffff_ffff * 0x200_0000) by (nonlinear_arith)
        requires
            block_size <= 0xffff_ffff,
            last_block + 1 <= 0x200_0000,
    ;
    let bytes = block_size as u64 * (last_block + 1);
    if bytes > MAX_VOLUME_BYTES {
        MAX_VOLUME_BYTES
    } else {
        bytes
    }
}

/// The formats in which the firmware can hold the pixels of the screen.
#[derive(Clone, Copy, PartialEq, Eq, Structural, Debug)]
pub enum GopPixelFormat {
    Rgb,
    Bgr,
    Bitmask,
    BltOnly,
}

/// The format of the frame buffer for the kernel, which draws in two of
/// the formats; `None` for the others.
pub fn frame_buffer_format(format: GopPixelFormat) -> (kernel_format: Option<PixelFormat>)
    ensures
        kernel_format == (match format {
            GopPixelFormat::Rgb => Some(PixelFormat::Rgb),
            GopPixelFormat::Bgr => Some(PixelFormat::Bgr),
            _ => None,
        }),
{
    match format {
        GopPixelFormat::Rgb => Some(PixelFormat::Rgb),
        GopPixelFormat::Bgr => Some(PixelFormat::Bgr),
        _ => None,
    }
}

/// The name of a pixel format.
pub fn get_pixel_format_unicode(format: GopPixelFormat) -> (name: &'static str)
    ensures
        name@ == (match format {
            GopPixelFormat::Rgb => "PixelRedGreenBlueReserved8bitPerColor"@,
            GopPixelFormat::Bgr => "PixelBlueGreenRedReserved8BitPerColor"@,
            GopPixelFormat::Bitmask => "PixelBitMask"@,
            GopPixelFormat::BltOnly => "PixelBltOnly"@,
        }),
{
    match format {
        GopPixelFormat::Rgb => "PixelRedGreenBlueReserved8bitPerColor",
        GopPixelFormat::Bgr => "PixelBlueGreenRedReserved8BitPerColor",
        GopPixelFormat::Bitmask => "PixelBitMask",
        GopPixelFormat::BltOnly => "PixelBltOnly",
    }
}

/// The name of the type `memory_type` of a range of memory, by its number
/// in the memory map of the firmware.
pub open spec fn spec_memory_type_name(memory_type: u32) -> Seq<char> {
    if memory_type == 0 {
        "EfiReservedMemoryType"@
    } else if memory_type == 1 {
        "EfiLoaderCode"@
    } else if memory_type == 2 {
        "EfiLoaderData"@
    } else if memory_type == 3 {
        "EfiBootServicesCode"@
    } else if memory_type == 4 {
        "EfiBootServicesData"@
    } else if memory_type == 5 {
        "EfiRuntimeServicesCode"@
    } else if memory_type == 6 {
        "EfiRuntimeServicesData"@
    } else if memory_type == 7 {
        "EfiConventionalMemory"@
    } else if memory_type == 8 {
        "EfiUnusableMemory"@
    } else if memory_type == 9 {
        "EfiACPIReclaimMemory"@
    } else if memory_type == 10 {
        "EfiAcpiMemoryNVS"@
    } else if memory_type == 11 {
        "EfiMemoryMappedIO"@
    } else if memory_type == 12 {
        "EfiMemoryMappedIOPortSpace"@
    } else if memory_type == 13 {
        "EfiPalCode"@
    } else if memory_type == 14 {
        "EfiPersistentMemory"@
    } else {
        "InvalidMemoryType"@
    }
}

/// The name of the type `memory_type` of a range of memory.
pub fn get_memory_type_unicode(memory_type: u32) -> (name: &'static str)
    ensures
        name@ == spec_memory_type_name(memory_type),
{
    match memory_type {
        0 => "EfiReservedMemoryType",
        1 => "EfiLoaderCode",
        2 => "EfiLoaderData",
        3 => "EfiBootServicesCode",
        4 => "EfiBootServicesData",
        5 => "EfiRuntimeServicesCode",
        6 => "EfiRuntimeServicesData",
        7 => "EfiConventionalMemory",
        8 => "EfiUnusableMemory",
        9 => "EfiACPIReclaimMemory",
        10 => "EfiAcpiMemoryNVS",
        11 => "EfiMemoryMappedIO",
        12 => "EfiMemoryMappedIOPortSpace",
        13 => "EfiPalCode",
        14 => "EfiPersistentMemory",
        _ => "InvalidMemoryType",
    }
}

/// One range of the memory map of the firmware.
#[derive(Clone, Copy, PartialEq, Eq, Structural, Debug)]
pub struct MemoryRange {
    pub memory_type: u32,
    pub phys_start: u64,
    pub page_count: u64,
    pub attribute: u64,
}

/// The first line of the file that holds the memory map.
pub fn memory_map_header() -> (header: &'static str)
    ensures
        header@ == "Index, Type, Type(name), PhysicalStart, NumberOfPages, Attribute\n"@,
{
    "Index, Type, Type(name), PhysicalStart, NumberOfPages, Attribute\n"
}

/// The line of the file for the range `range`, the `index`-th of the map:
/// the index, the number and the name of the type, the first address in at
/// least eight hexadecimal digits, the number of pages and the attributes,
/// with a comma and a blank between them.
pub open spec fn spec_memory_map_line(index: usize, range: MemoryRange) -> Seq<char> {
    decimal_digits(index as nat) + ", "@ + decimal_digits(range.memory_type as nat) + ", "@
        + spec_memory_type_name(range.memory_type) + ", "@ + zero_padded(
        hex_digits(range.phys_start as nat),
        8,
    ) + ", "@ + decimal_digits(range.page_count as nat) + ", "@ + decimal_digits(
        range.attribute as nat,
    ) + "\n"@
}

/// Writes the line of the file for one range of the memory map.
pub fn memory_map_line(index: usize, range: &MemoryRange) -> (line: String)
    ensures
        line@ == spec_memory_map_line(index, *range),
{
    let mut line = decimal(index as u64);
    line.append(", ");
    let memory_type = decimal(range.memory_type as u64);
    line.append(memory_type.as_str());
    line.append(", ");
    line.append(get_memory_type_unicode(range.memory_type));
    line.append(", ");
    let start = hex_padded(range.phys_start, 8);
    line.append(start.as_str());
    line.append(", ");
    let pages = decimal(range.page_count);
    line.append(pages.as_str());
    line.append(", ");
    let attribute = decimal(range.attribute);
    line.append(attribute.as_str());
    line.append("\n");
    line
}

/// The whole file that holds the memory map: the header and one line for
/// each range.
pub open spec fn spec_memory_map_text(ranges: Seq<MemoryRange>) -> Seq<char>
    decreases ranges.len(),
{
    if ranges.len() == 0 {
        "Index, Type, Type(name), PhysicalStart, NumberOfPages, Attribute\n"@
    } else {
        spec_memory_map_text(ranges.drop_last()) + spec_memory_map_line(
            (ranges.len() - 1) as usize,
            ranges.last(),
        )
    }
}

/// Writes the file that holds the memory map.
pub fn save_memory_map(ranges: &[MemoryRange]) -> (text: String)
    ensures
        text@ == spec_memory_map_text(ranges@),
{
    let mut text = String::from_str(memory_map_header());
    let mut i: usize = 0;
    proof {
        assert(ranges@.take(0) =~= Seq::<MemoryRange>::empty());
    }
    while i < ranges.len()
        invariant
            i <= ranges@.len(),
            text@ == spec_memory_map_text(ranges@.take(i as int)),
        decreases ranges@.len() - i,
    {
        let line = memory_map_line(i, &ranges[i]);
        proof {
            assert(ranges@.take(i + 1).drop_last() =~= ranges@.take(i as int));
            assert(ranges@.take(i + 1).last() == ranges@[i as int]);
        }
        text.append(line.as_str());
        i = i + 1;
    }
    proof {
        assert(ranges@.take(ranges@.len() as int) =~= ranges@);
    }
    text
}

} // verus!
