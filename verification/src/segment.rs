//! Segment descriptors and the global descriptor table of the kernel.

use vstd::prelude::*;

use crate::bitfield::{low_mask_u32, low_mask_u8, BitField};
use crate::x86_descriptor::{DescriptorType, DescriptorTypeEnum, SystemSegmentType};

verus! {

/// The flags of a code segment in long mode: long mode and granularity.
pub const CODE_FLAGS: u8 = 0xa0;

/// The flags of a data or system segment: default operation size and
/// granularity.
pub const DATA_FLAGS: u8 = 0xc0;

/// How the runs of bits of a `u32` that a descriptor stores read as numbers.
proof fn lemma_split_u32(v: u32)
    by (bit_vector)
    ensures
        (v >> 0u32) & low_mask_u32(16) == v % 0x1_0000,
        (v >> 16u32) & low_mask_u32(8) == (v / 0x1_0000) % 0x100,
        (v >> 24u32) & low_mask_u32(8) == v / 0x100_0000,
        (v >> 16u32) & low_mask_u32(4) == (v / 0x1_0000) % 16,
{
}

/// How the two bytes of flags come out of the steps that build them.
proof fn lemma_build_u8(ty: u8, dpl: u8, high: u8)
    by (bit_vector)
    requires
        ty < 32,
        dpl < 4,
        high < 16,
    ensures
        ty & !low_mask_u8(5) == 0,
        dpl & !low_mask_u8(2) == 0,
        high & !low_mask_u8(4) == 0,
        ((((0u8 & !(low_mask_u8(5) << 0u32)) | (ty << 0u32)) & !(low_mask_u8(2) << 5u32)) | (dpl
            << 5u32)) | (1u8 << 7u32) == ty + dpl * 32 + 128,
        (((((0u8 & !(low_mask_u8(4) << 0u32)) | (high << 0u32)) & !(1u8 << 4u32)) | (1u8 << 5u32))
            & !(1u8 << 6u32)) | (1u8 << 7u32) == high + 0xa0,
        (((((0u8 & !(low_mask_u8(4) << 0u32)) | (high << 0u32)) & !(1u8 << 4u32)) & !(1u8
            << 5u32)) | (1u8 << 6u32)) | (1u8 << 7u32) == high + 0xc0,
        (((0u8 & !(low_mask_u8(4) << 0u32)) | (high << 0u32)) | (1u8 << 6u32)) | (1u8 << 7u32)
            == high + 0xc0,
{
}

/// How the runs of bits of a byte of flags read as numbers.
proof fn lemma_read_u8(v: u8)
    by (bit_vector)
    ensures
        (v >> 0u32) & low_mask_u8(5) == v % 32,
        (v >> 5u32) & low_mask_u8(2) == (v / 32) % 4,
        (v >> 4u32) & low_mask_u8(4) == v / 16,
        ((v >> 4u32) & 1 == 1) == ((v / 16) % 2 == 1),
        ((v >> 5u32) & 1 == 1) == ((v / 32) % 2 == 1),
        ((v >> 6u32) & 1 == 1) == ((v / 64) % 2 == 1),
        ((v >> 7u32) & 1 == 1) == (v >= 128),
{
}

/// How three parts of an address, and a limit, join into one number.
proof fn lemma_join(high: u8, middle: u8, low: u16, nibble: u8)
    by (bit_vector)
    requires
        nibble < 16,
    ensures
        ((high as u32) << 24u32) | ((middle as u32) << 16u32) | (low as u32) == high * 0x100_0000
            + middle * 0x1_0000 + low,
        ((nibble as u32) << 16u32) | (low as u32) == nibble * 0x1_0000 + low,
{
}

/// An entry of the global descriptor table.
#[derive(Debug, Clone, Copy, PartialEq, Eq, Structural)]
pub struct SegmentDescriptor {
    pub limit_low: u16,
    pub base_low: u16,
    pub base_middle: u8,
    pub etc_1: u8,
    pub etc_2: u8,
    pub base_high: u8,
}

impl SegmentDescriptor {
    /// The descriptor of a segment at `base` of the size `limit`, of which
    /// the low twenty bits count, with the type `ty`, the privilege level
    /// `dpl` and the flags `flags`, present.
    pub open spec fn spec_new(base: u32, limit: u32, ty: u8, dpl: u8, flags: u8) -> Self {
        SegmentDescriptor {
            limit_low: (limit % 0x1_0000) as u16,
            base_low: (base % 0x1_0000) as u16,
            base_middle: ((base / 0x1_0000) % 0x100) as u8,
            etc_1: (ty + dpl * 32 + 128) as u8,
            etc_2: ((limit / 0x1_0000) % 16 + flags) as u8,
            base_high: (base / 0x100_0000) as u8,
        }
    }

    /// The null descriptor.
    pub open spec fn spec_null() -> Self {
        SegmentDescriptor {
            limit_low: 0,
            base_low: 0,
            base_middle: 0,
            etc_1: 0,
            etc_2: 0,
            base_high: 0,
        }
    }

    pub open spec fn spec_base(self) -> u32 {
        (self.base_high * 0x100_0000 + self.base_middle * 0x1_0000 + self.base_low) as u32
    }

    pub open spec fn spec_limit(self) -> u32 {
        ((self.etc_2 / 16) * 0x1_0000 + self.limit_low) as u32
    }

    pub open spec fn spec_type_raw(self) -> DescriptorType {
        DescriptorType { raw: self.etc_1 % 32 }
    }

    pub open spec fn spec_descriptor_privilege_level(self) -> u8 {
        (self.etc_1 / 32) % 4
    }

    pub open spec fn spec_present(self) -> bool {
        self.etc_1 >= 128
    }

    pub open spec fn spec_available(self) -> bool {
        (self.etc_2 / 16) % 2 == 1
    }

    pub open spec fn spec_long_mode(self) -> bool {
        (self.etc_2 / 32) % 2 == 1
    }

    pub open spec fn spec_default_operation_size(self) -> bool {
        (self.etc_2 / 64) % 2 == 1
    }

    pub open spec fn spec_granalarity(self) -> bool {
        self.etc_2 >= 128
    }

    /// The descriptor of a system segment of the kind `ty`. The privilege
    /// level is at most 3.
    pub fn system_segment(
        base: u32,
        limit: u32,
        ty: SystemSegmentType,
        descriptor_privilege_level: u8,
    ) -> (descriptor: Self)
        requires
            descriptor_privilege_level < 4,
        ensures
            descriptor == Self::spec_new(
                base,
                limit,
                ty.spec_code(),
                descriptor_privilege_level,
                DATA_FLAGS,
            ),
            descriptor.spec_base() == base,
            descriptor.spec_type_raw().spec_get() == DescriptorTypeEnum::System(ty),
            descriptor.spec_descriptor_privilege_level() == descriptor_privilege_level,
            descriptor.spec_present(),
            !descriptor.spec_available(),
            !descriptor.spec_long_mode(),
            descriptor.spec_default_operation_size(),
            descriptor.spec_granalarity(),
    {
        proof {
            lemma_split_u32(base);
            lemma_split_u32(limit);
        }
        let base_low = base.get_bits(0, 16) as u16;
        let base_middle = base.get_bits(16, 24) as u8;
        let base_high = base.get_bits(24, 32) as u8;
        let limit_low = limit.get_bits(0, 16) as u16;
        let limit_high = limit.get_bits(16, 20) as u8;
        let kind = DescriptorType::system_segment(ty).to_raw();
        proof {
            lemma_build_u8(kind, descriptor_privilege_level, limit_high);
        }

        let mut etc_1: u8 = 0;
        etc_1.set_bits(0, 5, kind);
        etc_1.set_bits(5, 7, descriptor_privilege_level);
        etc_1.set_bit(7, true);

        let mut etc_2: u8 = 0;
        etc_2.set_bits(0, 4, limit_high);
        etc_2.set_bit(6, true);
        etc_2.set_bit(7, true);

        Self { limit_low, base_low, base_middle, etc_1, etc_2, base_high }
    }

    /// The descriptor of a code segment for long mode. The privilege level
    /// is at most 3.
    pub fn code_segment(
        base: u32,
        limit: u32,
        accesed: bool,
        readable: bool,
        conforming: bool,
        descriptor_privilege_level: u8,
    ) -> (descriptor: Self)
        requires
            descriptor_privilege_level < 4,
        ensures
            descriptor == Self::spec_new(
                base,
                limit,
                DescriptorType::spec_code_data(accesed, readable, conforming, true),
                descriptor_privilege_level,
                CODE_FLAGS,
            ),
            descriptor.spec_base() == base,
            descriptor.spec_type_raw().spec_get() == (DescriptorTypeEnum::Code {
                accessed: accesed,
                readable,
                conforming,
            }),
            descriptor.spec_descriptor_privilege_level() == descriptor_privilege_level,
            descriptor.spec_present(),
            !descriptor.spec_available(),
            descriptor.spec_long_mode(),
            !descriptor.spec_default_operation_size(),
            descriptor.spec_granalarity(),
    {
        proof {
            lemma_split_u32(base);
            lemma_split_u32(limit);
        }
        let base_low = base.get_bits(0, 16) as u16;
        let base_middle = base.get_bits(16, 24) as u8;
        let base_high = base.get_bits(24, 32) as u8;
        let limit_low = limit.get_bits(0, 16) as u16;
        let limit_high = limit.get_bits(16, 20) as u8;
        let kind = DescriptorType::code_data_segment(accesed, readable, conforming, true).to_raw();
        proof {
            lemma_build_u8(kind, descriptor_privilege_level, limit_high);
        }

        let mut etc_1: u8 = 0;
        etc_1.set_bits(0, 5, kind);
        etc_1.set_bits(5, 7, descriptor_privilege_level);
        etc_1.set_bit(7, true);

        let mut etc_2: u8 = 0;
        etc_2.set_bits(0, 4, limit_high);
        etc_2.set_bit(4, false);
        etc_2.set_bit(5, true);
        etc_2.set_bit(6, false);
        etc_2.set_bit(7, true);

        Self { limit_low, base_low, base_middle, etc_1, etc_2, base_high }
    }

    /// The descriptor of a data segment. The privilege level is at most 3.
    pub fn data_segment(
        base: u32,
        limit: u32,
        accesed: bool,
        writable: bool,
        direction: bool,
        descriptor_privilege_level: u8,
    ) -> (descriptor: Self)
        requires
            descriptor_privilege_level < 4,
        ensures
            descriptor == Self::spec_new(
                base,
                limit,
                DescriptorType::spec_code_data(accesed, writable, direction, false),
                descriptor_privilege_level,
                DATA_FLAGS,
            ),
            descriptor.spec_base() == base,
            descriptor.spec_type_raw().spec_get() == (DescriptorTypeEnum::Data {
                accessed: accesed,
                writable,
                direction,
            }),
            descriptor.spec_descriptor_privilege_level() == descriptor_privilege_level,
            descriptor.spec_present(),
            !descriptor.spec_available(),
            !descriptor.spec_long_mode(),
            descriptor.spec_default_operation_size(),
            descriptor.spec_granalarity(),
    {
        proof {
            lemma_split_u32(base);
            lemma_split_u32(limit);
        }
        let base_low = base.get_bits(0, 16) as u16;
        let base_middle = base.get_bits(16, 24) as u8;
        let base_high = base.get_bits(24, 32) as u8;
        let limit_low = limit.get_bits(0, 16) as u16;
        let limit_high = limit.get_bits(16, 20) as u8;
        let kind = DescriptorType::code_data_segment(accesed, writable, direction, false).to_raw();
        proof {
            lemma_build_u8(kind, descriptor_privilege_level, limit_high);
        }

        let mut etc_1: u8 = 0;
        etc_1.set_bits(0, 5, kind);
        etc_1.set_bits(5, 7, descriptor_privilege_level);
        etc_1.set_bit(7, true);

        let mut etc_2: u8 = 0;
        etc_2.set_bits(0, 4, limit_high);
        etc_2.set_bit(4, false);
        etc_2.set_bit(5, false);
        etc_2.set_bit(6, true);
        etc_2.set_bit(7, true);

        Self { limit_low, base_low, base_middle, etc_1, etc_2, base_high }
    }

    /// The null descriptor.
    pub fn default() -> (descriptor: Self)
        ensures
            descriptor == Self::spec_null(),
    {
        Self { limit_low: 0, base_low: 0, base_middle: 0, etc_1: 0, etc_2: 0, base_high: 0 }
    }

    /// The upper four bits of the second byte of flags, above the low
    /// sixteen bits of the limit.
    pub fn limit(&self) -> (limit: u32)
        ensures
            limit == self.spec_limit(),
    {
        proof {
            lemma_read_u8(self.etc_2);
            lemma_join(0, 0, self.limit_low, self.etc_2 / 16);
        }
        (self.etc_2.get_bits(4, 8) as u32) << 16 | self.limit_low as u32
    }

    /// The address at which the segment starts.
    pub fn base(&self) -> (base: u32)
        ensures
            base == self.spec_base(),
    {
        proof {
            lemma_join(self.base_high, self.base_middle, self.base_low, 0);
        }
        (self.base_high as u32) << 24 | (self.base_middle as u32) << 16 | self.base_low as u32
    }

    /// The type field.
    pub fn type_raw(&self) -> (ty: DescriptorType)
        ensures
            ty == self.spec_type_raw(),
    {
        proof {
            lemma_read_u8(self.etc_1);
        }
        DescriptorType::from_raw(self.etc_1.get_bits(0, 5))
    }

    /// The type field, read.
    pub fn kind(&self) -> (kind: DescriptorTypeEnum)
        ensures
            kind == self.spec_type_raw().spec_get(),
    {
        self.type_raw().get()
    }

    /// Whether the descriptor is that of a system segment.
    pub fn is_system_segment(&self) -> (system: bool)
        ensures
            system == (self.etc_1 % 32 < 16),
    {
        self.type_raw().is_system_segment()
    }

    /// Whether the descriptor is that of a code or data segment.
    pub fn is_code_data_segment(&self) -> (code_data: bool)
        ensures
            code_data == (self.etc_1 % 32 >= 16),
    {
        self.type_raw().is_code_data_segment()
    }

    /// The privilege level.
    pub fn descriptor_privilege_level(&self) -> (level: u8)
        ensures
            level == self.spec_descriptor_privilege_level(),
    {
        proof {
            lemma_read_u8(self.etc_1);
        }
        self.etc_1.get_bits(5, 7)
    }

    /// Whether the segment is present.
    pub fn present(&self) -> (set: bool)
        ensures
            set == self.spec_present(),
    {
        proof {
            lemma_read_u8(self.etc_1);
        }
        self.etc_1.get_bit(7)
    }

    /// The bit that is left to the operating system.
    pub fn available(&self) -> (set: bool)
        ensures
            set == self.spec_available(),
    {
        proof {
            lemma_read_u8(self.etc_2);
        }
        self.etc_2.get_bit(4)
    }

    /// Whether the segment holds 64-bit code.
    pub fn long_mode(&self) -> (set: bool)
        ensures
            set == self.spec_long_mode(),
    {
        proof {
            lemma_read_u8(self.etc_2);
        }
        self.etc_2.get_bit(5)
    }

    /// The default operation size bit.
    pub fn default_operation_size(&self) -> (set: bool)
        ensures
            set == self.spec_default_operation_size(),
    {
        proof {
            lemma_read_u8(self.etc_2);
        }
        self.etc_2.get_bit(6)
    }

    /// The granularity bit.
    pub fn granalarity(&self) -> (set: bool)
        ensures
            set == self.spec_granalarity(),
    {
        proof {
            lemma_read_u8(self.etc_2);
        }
        self.etc_2.get_bit(7)
    }

    /// The eight bytes of the descriptor as the processor reads them.
    pub fn to_bytes(&self) -> (bytes: [u8; 8])
        ensures
            bytes@ == seq![
                (self.limit_low % 0x100) as u8,
                (self.limit_low / 0x100) as u8,
                (self.base_low % 0x100) as u8,
                (self.base_low / 0x100) as u8,
                self.base_middle,
                self.etc_1,
                self.etc_2,
                self.base_high,
            ],
    {
        [
            (self.limit_low % 0x100) as u8,
            (self.limit_low / 0x100) as u8,
            (self.base_low % 0x100) as u8,
            (self.base_low / 0x100) as u8,
            self.base_middle,
            self.etc_1,
            self.etc_2,
            self.base_high,
        ]
    }
}

/// The number of entries of the global descriptor table.
pub const GDT_LEN: usize = 3;

/// The size of one descriptor in bytes.
pub const DESCRIPTOR_BYTES: usize = 8;

/// The global descriptor table of the kernel: the null descriptor, a code
/// segment and a data segment, both over the whole address space at
/// privilege level 0. With it comes the size in bytes that is handed to the
/// processor along with the address of the table.
pub fn setup_segments() -> (table: ([SegmentDescriptor; 3], u16))
    ensures
        table.0@[0] == SegmentDescriptor::spec_null(),
        table.0@[1] == SegmentDescriptor::spec_new(
            0,
            0xfffff,
            DescriptorType::spec_code_data(false, true, false, true),
            0,
            CODE_FLAGS,
        ),
        table.0@[2] == SegmentDescriptor::spec_new(
            0,
            0xfffff,
            DescriptorType::spec_code_data(false, true, true, false),
            0,
            DATA_FLAGS,
        ),
        table.1 == GDT_LEN * DESCRIPTOR_BYTES,
{
    let null = SegmentDescriptor::default();
    let code = SegmentDescriptor::code_segment(0, 0xfffff, false, true, false, 0);
    let data = SegmentDescriptor::data_segment(0, 0xfffff, false, true, true, 0);
    ([null, code, data], (DESCRIPTOR_BYTES * GDT_LEN) as u16)
}

} // verus!
