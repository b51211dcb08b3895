//! Reading and writing single bits and runs of bits of an integer.

use vstd::prelude::*;

verus! {

/// Access to the bits of an integer. Bit 0 is the least significant one; a
/// run of bits is given by its first bit and the bit after its last.
pub trait BitField: Sized {
    /// The number of bits of the type.
    spec fn bit_length() -> u32;

    /// Whether the bit `bit` is set.
    spec fn spec_get_bit(self, bit: u32) -> bool;

    /// The bits from `start` up to `end`, moved down to bit 0.
    spec fn spec_get_bits(self, start: u32, end: u32) -> Self;

    /// The value with the bit `bit` set or cleared.
    spec fn spec_set_bit(self, bit: u32, value: bool) -> Self;

    /// The value with the bits from `start` up to `end` replaced by the low
    /// bits of `value`.
    spec fn spec_set_bits(self, start: u32, end: u32, value: Self) -> Self;

    /// Whether `value` has no bit set at `width` or above.
    spec fn fits(value: Self, width: u32) -> bool;

    /// Whether the bit `bit` is set.
    fn get_bit(&self, bit: u32) -> (set: bool)
        requires
            bit < Self::bit_length(),
        ensures
            set == self.spec_get_bit(bit),
    ;

    /// The bits from `start` up to `end`, moved down to bit 0.
    fn get_bits(&self, start: u32, end: u32) -> (bits: Self)
        requires
            start < end <= Self::bit_length(),
        ensures
            bits == self.spec_get_bits(start, end),
            Self::fits(bits, (end - start) as u32),
    ;

    /// Sets or clears the bit `bit`.
    fn set_bit(&mut self, bit: u32, value: bool)
        requires
            bit < Self::bit_length(),
        ensures
            *final(self) == old(self).spec_set_bit(bit, value),
            final(self).spec_get_bit(bit) == value,
    ;

    /// Replaces the bits from `start` up to `end` by `value`, which must fit
    /// into that many bits.
    fn set_bits(&mut self, start: u32, end: u32, value: Self)
        requires
            start < end <= Self::bit_length(),
            Self::fits(value, (end - start) as u32),
        ensures
            *final(self) == old(self).spec_set_bits(start, end, value),
            final(self).spec_get_bits(start, end) == value,
    ;
}

/// The value of type `u8` whose lowest `width` bits are set.
pub open spec fn low_mask_u8(width: u32) -> u8 {
    if width >= 8 {
        0xffu8
    } else {
        ((1u8 << width) - 1) as u8
    }
}

/// The value of type `u8` whose lowest `width` bits are set.
pub fn mask_u8(width: u32) -> (mask: u8)
    ensures
        mask == low_mask_u8(width),
{
    if width >= 8 {
        0xffu8
    } else {
        assert((1u8 << width) >= 1) by (bit_vector)
            requires
                width < 8,
        ;
        (1u8 << width) - 1
    }
}

impl BitField for u8 {
    open spec fn bit_length() -> u32 {
        8
    }

    open spec fn spec_get_bit(self, bit: u32) -> bool {
        (self >> bit) & 1 == 1
    }

    open spec fn spec_get_bits(self, start: u32, end: u32) -> u8 {
        (self >> start) & low_mask_u8((end - start) as u32)
    }

    open spec fn spec_set_bit(self, bit: u32, value: bool) -> u8 {
        if value {
            self | (1u8 << bit)
        } else {
            self & !(1u8 << bit)
        }
    }

    open spec fn spec_set_bits(self, start: u32, end: u32, value: u8) -> u8 {
        (self & !(low_mask_u8((end - start) as u32) << start)) | (value << start)
    }

    open spec fn fits(value: u8, width: u32) -> bool {
        value & !low_mask_u8(width) == 0
    }

    fn get_bit(&self, bit: u32) -> (set: bool) {
        (*self >> bit) & 1 == 1
    }

    fn get_bits(&self, start: u32, end: u32) -> (bits: u8) {
        let mask = mask_u8(end - start);
        let value = *self;
        assert(((value >> start) & mask) & !mask == 0) by (bit_vector);
        (value >> start) & mask
    }

    fn set_bit(&mut self, bit: u32, value: bool) {
        let before = *self;
        if value {
            assert((((before | (1u8 << bit)) >> bit) & 1) == 1) by (bit_vector)
                requires
                    bit < 8,
            ;
            *self = before | (1u8 << bit);
        } else {
            assert((((before & !(1u8 << bit)) >> bit) & 1) == 0) by (bit_vector)
                requires
                    bit < 8,
            ;
            *self = before & !(1u8 << bit);
        }
    }

    fn set_bits(&mut self, start: u32, end: u32, value: u8) {
        let width = end - start;
        let mask = mask_u8(width);
        let before = *self;
        assert((((before & !(mask << start)) | (value << start)) >> start) & mask == value)
            by (bit_vector)
            requires
                width >= 1,
                start + width <= 8,
                mask == low_mask_u8(width),
                value & !mask == 0,
        ;
        *self = (before & !(mask << start)) | (value << start);
    }
}

/// The value of type `u32` whose lowest `width` bits are set.
pub open spec fn low_mask_u32(width: u32) -> u32 {
    if width >= 32 {
        0xffff_ffffu32
    } else {
        ((1u32 << width) - 1) as u32
    }
}

/// The value of type `u32` whose lowest `width` bits are set.
pub fn mask_u32(width: u32) -> (mask: u32)
    ensures
        mask == low_mask_u32(width),
{
    if width >= 32 {
        0xffff_ffffu32
    } else {
        assert((1u32 << width) >= 1) by (bit_vector)
            requires
                width < 32,
        ;
        (1u32 << width) - 1
    }
}

impl BitField for u32 {
    open spec fn bit_length() -> u32 {
        32
    }

    open spec fn spec_get_bit(self, bit: u32) -> bool {
        (self >> bit) & 1 == 1
    }

    open spec fn spec_get_bits(self, start: u32, end: u32) -> u32 {
        (self >> start) & low_mask_u32((end - start) as u32)
    }

    open spec fn spec_set_bit(self, bit: u32, value: bool) -> u32 {
        if value {
            self | (1u32 << bit)
        } else {
            self & !(1u32 << bit)
        }
    }

    open spec fn spec_set_bits(self, start: u32, end: u32, value: u32) -> u32 {
        (self & !(low_mask_u32((end - start) as u32) << start)) | (value << start)
    }

    open spec fn fits(value: u32, width: u32) -> bool {
        value & !low_mask_u32(width) == 0
    }

    fn get_bit(&self, bit: u32) -> (set: bool) {
        (*self >> bit) & 1 == 1
    }

    fn get_bits(&self, start: u32, end: u32) -> (bits: u32) {
        let mask = mask_u32(end - start);
        let value = *self;
        assert(((value >> start) & mask) & !mask == 0) by (bit_vector);
        (value >> start) & mask
    }

    fn set_bit(&mut self, bit: u32, value: bool) {
        let before = *self;
        if value {
            assert((((before | (1u32 << bit)) >> bit) & 1) == 1) by (bit_vector)
                requires
                    bit < 32,
            ;
            *self = before | (1u32 << bit);
        } else {
            assert((((before & !(1u32 << bit)) >> bit) & 1) == 0) by (bit_vector)
                requires
                    bit < 32,
            ;
            *self = before & !(1u32 << bit);
        }
    }

    fn set_bits(&mut self, start: u32, end: u32, value: u32) {
        let width = end - start;
        let mask = mask_u32(width);
        let before = *self;
        assert((((before & !(mask << start)) | (value << start)) >> start) & mask == value)
            by (bit_vector)
            requires
                width >= 1,
                start + width <= 32,
                mask == low_mask_u32(width),
                value & !mask == 0,
        ;
        *self = (before & !(mask << start)) | (value << start);
    }
}

/// The value of type `u64` whose lowest `width` bits are set.
pub open spec fn low_mask_u64(width: u32) -> u64 {
    if width >= 64 {
        0xffff_ffff_ffff_ffffu64
    } else {
        ((1u64 << width) - 1) as u64
    }
}

/// The value of type `u64` whose lowest `width` bits are set.
pub fn mask_u64(width: u32) -> (mask: u64)
    ensures
        mask == low_mask_u64(width),
{
    if width >= 64 {
        0xffff_ffff_ffff_ffffu64
    } else {
        assert((1u64 << width) >= 1) by (bit_vector)
            requires
                width < 64,
        ;
        (1u64 << width) - 1
    }
}

impl BitField for u64 {
    open spec fn bit_length() -> u32 {
        64
    }

    open spec fn spec_get_bit(self, bit: u32) -> bool {
        (self >> bit) & 1 == 1
    }

    open spec fn spec_get_bits(self, start: u32, end: u32) -> u64 {
        (self >> start) & low_mask_u64((end - start) as u32)
    }

    open spec fn spec_set_bit(self, bit: u32, value: bool) -> u64 {
        if value {
            self | (1u64 << bit)
        } else {
            self & !(1u64 << bit)
        }
    }

    open spec fn spec_set_bits(self, start: u32, end: u32, value: u64) -> u64 {
        (self & !(low_mask_u64((end - start) as u32) << start)) | (value << start)
    }

    open spec fn fits(value: u64, width: u32) -> bool {
        value & !low_mask_u64(width) == 0
    }

    fn get_bit(&self, bit: u32) -> (set: bool) {
        (*self >> bit) & 1 == 1
    }

    fn get_bits(&self, start: u32, end: u32) -> (bits: u64) {
        let mask = mask_u64(end - start);
        let value = *self;
        assert(((value >> start) & mask) & !mask == 0) by (bit_vector);
        (value >> start) & mask
    }

    fn set_bit(&mut self, bit: u32, value: bool) {
        let before = *self;
        if value {
            assert((((before | (1u64 << bit)) >> bit) & 1) == 1) by (bit_vector)
                requires
                    bit < 64,
            ;
            *self = before | (1u64 << bit);
        } else {
            assert((((before & !(1u64 << bit)) >> bit) & 1) == 0) by (bit_vector)
                requires
                    bit < 64,
            ;
            *self = before & !(1u64 << bit);
        }
    }

    fn set_bits(&mut self, start: u32, end: u32, value: u64) {
        let width = end - start;
        let mask = mask_u64(width);
        let before = *self;
        assert((((before & !(mask << start)) | (value << start)) >> start) & mask == value)
            by (bit_vector)
            requires
                width >= 1,
                start + width <= 64,
                mask == low_mask_u64(width),
                value & !mask == 0,
        ;
        *self = (before & !(mask << start)) | (value << start);
    }
}

} // verus!
