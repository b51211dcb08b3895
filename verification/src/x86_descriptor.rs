//! The type field of x86-64 segment descriptors.

use vstd::prelude::*;

verus! {

/// The kinds of system segment and gate that long mode knows.
#[derive(Clone, Copy, PartialEq, Eq, Structural, Debug)]
pub enum SystemSegmentType {
    LocalDescriptorTable,
    TaskStateSegmentAvailable,
    TaskStateSegmentBusy,
    CallGate,
    InterruptGate,
    TrapGate,
}

impl SystemSegmentType {
    /// The four type bits of the kind.
    pub open spec fn spec_code(self) -> u8 {
        match self {
            SystemSegmentType::LocalDescriptorTable => 2,
            SystemSegmentType::TaskStateSegmentAvailable => 9,
            SystemSegmentType::TaskStateSegmentBusy => 11,
            SystemSegmentType::CallGate => 12,
            SystemSegmentType::InterruptGate => 14,
            SystemSegmentType::TrapGate => 15,
        }
    }

    /// The four type bits of the kind.
    pub fn code(self) -> (code: u8)
        ensures
            code == self.spec_code(),
            code < 16,
    {
        match self {
            SystemSegmentType::LocalDescriptorTable => 2,
            SystemSegmentType::TaskStateSegmentAvailable => 9,
            SystemSegmentType::TaskStateSegmentBusy => 11,
            SystemSegmentType::CallGate => 12,
            SystemSegmentType::InterruptGate => 14,
            SystemSegmentType::TrapGate => 15,
        }
    }

    /// The kind with the type bits `code`, if there is one.
    pub open spec fn spec_from_code(code: u8) -> Option<Self> {
        if code == 2 {
            Some(SystemSegmentType::LocalDescriptorTable)
        } else if code == 9 {
            Some(SystemSegmentType::TaskStateSegmentAvailable)
        } else if code == 11 {
            Some(SystemSegmentType::TaskStateSegmentBusy)
        } else if code == 12 {
            Some(SystemSegmentType::CallGate)
        } else if code == 14 {
            Some(SystemSegmentType::InterruptGate)
        } else if code == 15 {
            Some(SystemSegmentType::TrapGate)
        } else {
            None
        }
    }

    /// The kind with the type bits `code`, if there is one.
    pub fn from_code(code: u8) -> (kind: Option<Self>)
        ensures
            kind == Self::spec_from_code(code),
            kind matches Some(k) ==> k.spec_code() == code,
    {
        match code {
            2 => Some(SystemSegmentType::LocalDescriptorTable),
            9 => Some(SystemSegmentType::TaskStateSegmentAvailable),
            11 => Some(SystemSegmentType::TaskStateSegmentBusy),
            12 => Some(SystemSegmentType::CallGate),
            14 => Some(SystemSegmentType::InterruptGate),
            15 => Some(SystemSegmentType::TrapGate),
            _ => None,
        }
    }
}

/// The type field of a descriptor, read.
#[derive(Clone, Copy, PartialEq, Eq, Structural, Debug)]
pub enum DescriptorTypeEnum {
    /// A system segment or gate of a known kind.
    System(SystemSegmentType),
    /// A system segment whose type bits name no known kind.
    Reserved(u8),
    /// A code segment.
    Code { accessed: bool, readable: bool, conforming: bool },
    /// A data segment.
    Data { accessed: bool, writable: bool, direction: bool },
}

/// The five bits of a descriptor that hold its type: the four type bits and,
/// above them, the bit that tells code and data segments from system
/// segments.
#[derive(Clone, Copy, PartialEq, Eq, Structural, Debug)]
pub struct DescriptorType {
    pub raw: u8,
}

impl DescriptorType {
    /// The type of a system segment of the kind `kind`.
    pub fn system_segment(kind: SystemSegmentType) -> (ty: Self)
        ensures
            ty.raw == kind.spec_code(),
            ty.raw < 32,
    {
        Self { raw: kind.code() }
    }

    /// The five bits of a code or data segment.
    pub open spec fn spec_code_data(
        accessed: bool,
        read_write: bool,
        conforming_direction: bool,
        executable: bool,
    ) -> u8 {
        (16 + (if executable {
            8int
        } else {
            0int
        }) + (if conforming_direction {
            4int
        } else {
            0int
        }) + (if read_write {
            2int
        } else {
            0int
        }) + (if accessed {
            1int
        } else {
            0int
        })) as u8
    }

    /// The type of a code segment, if `executable`, or of a data segment.
    /// `read_write` makes a code segment readable and a data segment
    /// writable; `conforming_direction` makes a code segment conforming and
    /// a data segment grow downwards.
    pub fn code_data_segment(
        accessed: bool,
        read_write: bool,
        conforming_direction: bool,
        executable: bool,
    ) -> (ty: Self)
        ensures
            ty.raw == Self::spec_code_data(accessed, read_write, conforming_direction, executable),
            16 <= ty.raw < 32,
    {
        let mut raw: u8 = 16;
        if executable {
            raw = raw + 8;
        }
        if conforming_direction {
            raw = raw + 4;
        }
        if read_write {
            raw = raw + 2;
        }
        if accessed {
            raw = raw + 1;
        }
        Self { raw }
    }

    /// The type that the low five bits of `raw` hold.
    pub fn from_raw(raw: u8) -> (ty: Self)
        ensures
            ty.raw == raw % 32,
    {
        Self { raw: raw % 32 }
    }

    /// The five bits.
    pub fn to_raw(&self) -> (raw: u8)
        ensures
            raw == self.raw,
    {
        self.raw
    }

    /// Whether the type is that of a system segment.
    pub fn is_system_segment(&self) -> (system: bool)
        ensures
            system == (self.raw % 32 < 16),
    {
        self.raw % 32 < 16
    }

    /// Whether the type is that of a code or data segment.
    pub fn is_code_data_segment(&self) -> (code_data: bool)
        ensures
            code_data == (self.raw % 32 >= 16),
    {
        self.raw % 32 >= 16
    }

    /// What the five bits say.
    pub open spec fn spec_get(self) -> DescriptorTypeEnum {
        let raw = self.raw % 32;
        let accessed = raw % 2 == 1;
        let read_write = (raw / 2) % 2 == 1;
        let conforming_direction = (raw / 4) % 2 == 1;
        if raw < 16 {
            if raw == 2 {
                DescriptorTypeEnum::System(SystemSegmentType::LocalDescriptorTable)
            } else if raw == 9 {
                DescriptorTypeEnum::System(SystemSegmentType::TaskStateSegmentAvailable)
            } else if raw == 11 {
                DescriptorTypeEnum::System(SystemSegmentType::TaskStateSegmentBusy)
            } else if raw == 12 {
                DescriptorTypeEnum::System(SystemSegmentType::CallGate)
            } else if raw == 14 {
                DescriptorTypeEnum::System(SystemSegmentType::InterruptGate)
            } else if raw == 15 {
                DescriptorTypeEnum::System(SystemSegmentType::TrapGate)
            } else {
                DescriptorTypeEnum::Reserved(raw)
            }
        } else if raw >= 24 {
            DescriptorTypeEnum::Code {
                accessed,
                readable: read_write,
                conforming: conforming_direction,
            }
        } else {
            DescriptorTypeEnum::Data {
                accessed,
                writable: read_write,
                direction: conforming_direction,
            }
        }
    }

    /// What the five bits say.
    pub fn get(&self) -> (kind: DescriptorTypeEnum)
        ensures
            kind == self.spec_get(),
    {
        let raw = self.raw % 32;
        let accessed = raw % 2 == 1;
        let read_write = (raw / 2) % 2 == 1;
        let conforming_direction = (raw / 4) % 2 == 1;
        if raw < 16 {
            match SystemSegmentType::from_code(raw) {
                Some(kind) => DescriptorTypeEnum::System(kind),
                None => DescriptorTypeEnum::Reserved(raw),
            }
        } else if raw >= 24 {
            DescriptorTypeEnum::Code {
                accessed,
                readable: read_write,
                conforming: conforming_direction,
            }
        } else {
            DescriptorTypeEnum::Data {
                accessed,
                writable: read_write,
                direction: conforming_direction,
            }
        }
    }
}

/// Reading the type of a system segment gives back its kind, and reading
/// that of a code or data segment gives back what it was made with.
pub proof fn lemma_descriptor_type_round_trip(
    kind: SystemSegmentType,
    accessed: bool,
    read_write: bool,
    conforming_direction: bool,
)
    ensures
        (DescriptorType { raw: kind.spec_code() }).spec_get() == DescriptorTypeEnum::System(kind),
        (DescriptorType {
            raw: DescriptorType::spec_code_data(accessed, read_write, conforming_direction, true),
        }).spec_get() == (DescriptorTypeEnum::Code {
            accessed,
            readable: read_write,
            conforming: conforming_direction,
        }),
        (DescriptorType {
            raw: DescriptorType::spec_code_data(accessed, read_write, conforming_direction, false),
        }).spec_get() == (DescriptorTypeEnum::Data {
            accessed,
            writable: read_write,
            direction: conforming_direction,
        }),
{
}

} // verus!
