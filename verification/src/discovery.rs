//! What a discovery reports: sockets, their processors, and the identifiers
//! of each processor, decoded from the raw values of the management library.

use vstd::prelude::*;

use crate::error::AmdSmiError;

verus! {

/// The bus address of a device: function, device, bus and domain number.
///
/// The management library packs the four numbers into one 64-bit value:
/// the function in bits 0 to 2, the device in bits 3 to 7, the bus in bits 8
/// to 15 and the domain in the 48 bits above.
#[allow(clippy::upper_case_acronyms)]
#[derive(Debug, Clone, Copy, PartialEq, Eq, Structural)]
pub struct BDF {
    pub function_number: u64,
    pub device_number: u64,
    pub bus_number: u64,
    pub domain_number: u64,
}

impl BDF {
    /// The address that the packed value `raw` holds.
    pub open spec fn decode(raw: u64) -> BDF {
        BDF {
            function_number: raw & 0b111,
            device_number: (raw >> 3) & 0b1_1111,
            bus_number: (raw >> 8) & 0b1111_1111,
            domain_number: (raw >> 16) & 0xFFFF_FFFF_FFFF,
        }
    }

    /// Whether each number fits its field: 3, 5, 8 and 48 bits.
    pub open spec fn in_range(&self) -> bool {
        &&& self.function_number < 8
        &&& self.device_number < 32
        &&& self.bus_number < 256
        &&& self.domain_number < 0x1_0000_0000_0000
    }

    /// The packed value of this address.
    pub open spec fn encode(&self) -> u64 {
        (self.domain_number << 16) | (self.bus_number << 8) | (self.device_number << 3)
            | self.function_number
    }

    /// Unpacks `raw`. Every 64-bit value is an address: nothing is rejected,
    /// each number fits its field, and packing the result gives `raw` back.
    pub fn from_raw(raw: u64) -> (bdf: BDF)
        ensures
            bdf == BDF::decode(raw),
            bdf.in_range(),
            bdf.encode() == raw,
    {
        proof {
            lemma_bdf_round_trip(raw);
        }
        BDF {
            function_number: raw & 0b111,
            device_number: (raw >> 3) & 0b1_1111,
            bus_number: (raw >> 8) & 0b1111_1111,
            domain_number: (raw >> 16) & 0xFFFF_FFFF_FFFF,
        }
    }

    /// Packs the four numbers into one value. Where each number fits its
    /// field, unpacking the result gives this address back.
    pub fn to_raw(&self) -> (raw: u64)
        ensures
            raw == self.encode(),
            self.in_range() ==> BDF::decode(raw) == *self,
    {
        proof {
            if self.in_range() {
                lemma_bdf_decode_encode(*self);
            }
        }
        (self.domain_number << 16) | (self.bus_number << 8) | (self.device_number << 3)
            | self.function_number
    }
}

/// Unpacking loses nothing: for every 64-bit value, the four numbers fit
/// their fields and pack to the same value again.
pub proof fn lemma_bdf_round_trip(raw: u64)
    ensures
        BDF::decode(raw).in_range(),
        BDF::decode(raw).encode() == raw,
{
    assert(raw & 0b111 < 8) by (bit_vector);
    assert((raw >> 3) & 0b1_1111 < 32) by (bit_vector);
    assert((raw >> 8) & 0b1111_1111 < 256) by (bit_vector);
    assert((raw >> 16) & 0xFFFF_FFFF_FFFF < 0x1_0000_0000_0000) by (bit_vector);
    assert(((((raw >> 16) & 0xFFFF_FFFF_FFFF) << 16) | (((raw >> 8) & 0b1111_1111) << 8) | (((raw
        >> 3) & 0b1_1111) << 3) | (raw & 0b111)) == raw) by (bit_vector);
}

/// Packing loses nothing where each number fits its field: unpacking the
/// packed value gives the four numbers back.
pub proof fn lemma_bdf_decode_encode(bdf: BDF)
    requires
        bdf.in_range(),
    ensures
        BDF::decode(bdf.encode()) == bdf,
{
    let f = bdf.function_number;
    let d = bdf.device_number;
    let b = bdf.bus_number;
    let m = bdf.domain_number;
    let raw = (m << 16) | (b << 8) | (d << 3) | f;
    assert(raw & 0b111 == f) by (bit_vector)
        requires
            raw == (m << 16) | (b << 8) | (d << 3) | f,
            f < 8,
            d < 32,
            b < 256,
            m < 0x1_0000_0000_0000,
    ;
    assert((raw >> 3) & 0b1_1111 == d) by (bit_vector)
        requires
            raw == (m << 16) | (b << 8) | (d << 3) | f,
            f < 8,
            d < 32,
            b < 256,
            m < 0x1_0000_0000_0000,
    ;
    assert((raw >> 8) & 0b1111_1111 == b) by (bit_vector)
        requires
            raw == (m << 16) | (b << 8) | (d << 3) | f,
            f < 8,
            d < 32,
            b < 256,
            m < 0x1_0000_0000_0000,
    ;
    assert((raw >> 16) & 0xFFFF_FFFF_FFFF == m) by (bit_vector)
        requires
            raw == (m << 16) | (b << 8) | (d << 3) | f,
            f < 8,
            d < 32,
            b < 256,
            m < 0x1_0000_0000_0000,
    ;
}

/// The class of a processor, as the management library tags it.
#[derive(Debug, Clone, Copy, PartialEq, Eq, Structural)]
pub enum ProcessorClass {
    Unknown,
    AmdGpu,
    AmdCpu,
    NonAmdGpu,
    NonAmdCpu,
    AmdCpuCore,
    AmdApu,
}

impl ProcessorClass {
    /// The tag of this class.
    pub open spec fn spec_tag(&self) -> u32 {
        match self {
            ProcessorClass::Unknown => 0,
            ProcessorClass::AmdGpu => 1,
            ProcessorClass::AmdCpu => 2,
            ProcessorClass::NonAmdGpu => 3,
            ProcessorClass::NonAmdCpu => 4,
            ProcessorClass::AmdCpuCore => 5,
            ProcessorClass::AmdApu => 6,
        }
    }

    /// The class that `tag` names, for the tags 0 to 6; every other tag is
    /// unexpected data.
    pub open spec fn classify(tag: u32) -> Result<ProcessorClass, AmdSmiError> {
        if tag == 0 {
            Ok(ProcessorClass::Unknown)
        } else if tag == 1 {
            Ok(ProcessorClass::AmdGpu)
        } else if tag == 2 {
            Ok(ProcessorClass::AmdCpu)
        } else if tag == 3 {
            Ok(ProcessorClass::NonAmdGpu)
        } else if tag == 4 {
            Ok(ProcessorClass::NonAmdCpu)
        } else if tag == 5 {
            Ok(ProcessorClass::AmdCpuCore)
        } else if tag == 6 {
            Ok(ProcessorClass::AmdApu)
        } else {
            Err(AmdSmiError::AmdsmiStatusUnexpectedData)
        }
    }

    /// The tag of this class.
    #[verifier::when_used_as_spec(spec_tag)]
    pub fn tag(&self) -> (tag: u32)
        ensures
            tag == self.spec_tag(),
            tag <= 6,
            ProcessorClass::classify(tag) == Ok::<ProcessorClass, AmdSmiError>(*self),
    {
        match self {
            ProcessorClass::Unknown => 0,
            ProcessorClass::AmdGpu => 1,
            ProcessorClass::AmdCpu => 2,
            ProcessorClass::NonAmdGpu => 3,
            ProcessorClass::NonAmdCpu => 4,
            ProcessorClass::AmdCpuCore => 5,
            ProcessorClass::AmdApu => 6,
        }
    }

    /// Reads a tag. The tags 0 to 6 name a class each; any other tag is
    /// refused as unexpected data, never taken for the unknown class.
    pub fn from_tag(tag: u32) -> (r: Result<ProcessorClass, AmdSmiError>)
        ensures
            r == ProcessorClass::classify(tag),
            r is Ok <==> tag <= 6,
            r matches Ok(class) ==> class.spec_tag() == tag,
            r matches Err(e) ==> e == AmdSmiError::AmdsmiStatusUnexpectedData,
    {
        match tag {
            0 => Ok(ProcessorClass::Unknown),
            1 => Ok(ProcessorClass::AmdGpu),
            2 => Ok(ProcessorClass::AmdCpu),
            3 => Ok(ProcessorClass::NonAmdGpu),
            4 => Ok(ProcessorClass::NonAmdCpu),
            5 => Ok(ProcessorClass::AmdCpuCore),
            6 => Ok(ProcessorClass::AmdApu),
            _ => Err(AmdSmiError::AmdsmiStatusUnexpectedData),
        }
    }
}

/// How a GPU is shared between a host and its guests.
#[derive(Debug, Clone, Copy, PartialEq, Eq, Structural)]
pub enum VirtualizationMode {
    Unknown,
    BareMetal,
    Host,
    Guest,
    PassThrough,
}

impl VirtualizationMode {
    /// The tag of this mode.
    pub open spec fn spec_tag(&self) -> u32 {
        match self {
            VirtualizationMode::Unknown => 0,
            VirtualizationMode::BareMetal => 1,
            VirtualizationMode::Host => 2,
            VirtualizationMode::Guest => 3,
            VirtualizationMode::PassThrough => 4,
        }
    }

    /// The tag of this mode.
    #[verifier::when_used_as_spec(spec_tag)]
    pub fn tag(&self) -> (tag: u32)
        ensures
            tag == self.spec_tag(),
            tag <= 4,
    {
        match self {
            VirtualizationMode::Unknown => 0,
            VirtualizationMode::BareMetal => 1,
            VirtualizationMode::Host => 2,
            VirtualizationMode::Guest => 3,
            VirtualizationMode::PassThrough => 4,
        }
    }

    /// Reads a tag: the mode whose tag it is, for the tags 0 to 4, and
    /// nothing for any other.
    pub fn from_tag(tag: u32) -> (mode: Option<VirtualizationMode>)
        ensures
            mode is Some <==> tag <= 4,
            mode matches Some(m) ==> m.spec_tag() == tag,
    {
        match tag {
            0 => Some(VirtualizationMode::Unknown),
            1 => Some(VirtualizationMode::BareMetal),
            2 => Some(VirtualizationMode::Host),
            3 => Some(VirtualizationMode::Guest),
            4 => Some(VirtualizationMode::PassThrough),
            _ => None,
        }
    }
}

/// One processor of a socket, with the identifiers read for its class.
#[derive(Debug, Clone, PartialEq, Eq)]
pub enum ProcessorType {
    Unknown,
    AmdGpu {
        bdf: BDF,
        uuid: String,
        id: u16,
        revision: u16,
        vendor_name: String,
        subsystem_id: u16,
        subsystem_name: String,
    },
    AmdCpu { name: String },
    NonAmdGpu,
    NonAmdCpu,
    AmdCpuCore,
    AmdApu,
}

/// A processor as contracts speak of it: each text by its characters.
pub ghost enum ProcessorView {
    Unknown,
    AmdGpu {
        bdf: BDF,
        uuid: Seq<char>,
        id: u16,
        revision: u16,
        vendor_name: Seq<char>,
        subsystem_id: u16,
        subsystem_name: Seq<char>,
    },
    AmdCpu { name: Seq<char> },
    NonAmdGpu,
    NonAmdCpu,
    AmdCpuCore,
    AmdApu,
}

impl ProcessorView {
    /// The class of this processor.
    pub open spec fn class(self) -> ProcessorClass {
        match self {
            ProcessorView::Unknown => ProcessorClass::Unknown,
            ProcessorView::AmdGpu { .. } => ProcessorClass::AmdGpu,
            ProcessorView::AmdCpu { .. } => ProcessorClass::AmdCpu,
            ProcessorView::NonAmdGpu => ProcessorClass::NonAmdGpu,
            ProcessorView::NonAmdCpu => ProcessorClass::NonAmdCpu,
            ProcessorView::AmdCpuCore => ProcessorClass::AmdCpuCore,
            ProcessorView::AmdApu => ProcessorClass::AmdApu,
        }
    }

    /// Whether the processor is valid: the bus address of a GPU fits its
    /// fields.
    pub open spec fn valid(self) -> bool {
        self matches ProcessorView::AmdGpu { bdf, .. } ==> bdf.in_range()
    }

    /// The processor of a class that carries no identifiers. For the two
    /// classes that carry some, the unknown processor.
    pub open spec fn bare(class: ProcessorClass) -> ProcessorView {
        match class {
            ProcessorClass::NonAmdGpu => ProcessorView::NonAmdGpu,
            ProcessorClass::NonAmdCpu => ProcessorView::NonAmdCpu,
            ProcessorClass::AmdCpuCore => ProcessorView::AmdCpuCore,
            ProcessorClass::AmdApu => ProcessorView::AmdApu,
            _ => ProcessorView::Unknown,
        }
    }
}

impl View for ProcessorType {
    type V = ProcessorView;

    open spec fn view(&self) -> ProcessorView {
        match self {
            ProcessorType::Unknown => ProcessorView::Unknown,
            ProcessorType::AmdGpu {
                bdf,
                uuid,
                id,
                revision,
                vendor_name,
                subsystem_id,
                subsystem_name,
            } => ProcessorView::AmdGpu {
                bdf: *bdf,
                uuid: uuid@,
                id: *id,
                revision: *revision,
                vendor_name: vendor_name@,
                subsystem_id: *subsystem_id,
                subsystem_name: subsystem_name@,
            },
            ProcessorType::AmdCpu { name } => ProcessorView::AmdCpu { name: name@ },
            ProcessorType::NonAmdGpu => ProcessorView::NonAmdGpu,
            ProcessorType::NonAmdCpu => ProcessorView::NonAmdCpu,
            ProcessorType::AmdCpuCore => ProcessorView::AmdCpuCore,
            ProcessorType::AmdApu => ProcessorView::AmdApu,
        }
    }
}

impl ProcessorType {
    /// The class of this processor.
    pub fn class(&self) -> (class: ProcessorClass)
        ensures
            class == self@.class(),
    {
        match self {
            ProcessorType::Unknown => ProcessorClass::Unknown,
            ProcessorType::AmdGpu { .. } => ProcessorClass::AmdGpu,
            ProcessorType::AmdCpu { .. } => ProcessorClass::AmdCpu,
            ProcessorType::NonAmdGpu => ProcessorClass::NonAmdGpu,
            ProcessorType::NonAmdCpu => ProcessorClass::NonAmdCpu,
            ProcessorType::AmdCpuCore => ProcessorClass::AmdCpuCore,
            ProcessorType::AmdApu => ProcessorClass::AmdApu,
        }
    }
}

/// The processors of a list as contracts speak of them, in the same order.
pub open spec fn processor_views(processors: Seq<ProcessorType>) -> Seq<ProcessorView> {
    processors.map_values(|p: ProcessorType| p@)
}

/// One socket: its name and its processors, in the order of discovery.
#[derive(Debug, Clone, PartialEq, Eq)]
pub struct SocketInfo {
    pub name: String,
    pub processors: Vec<ProcessorType>,
}

/// A socket as contracts speak of it.
pub ghost struct SocketView {
    pub name: Seq<char>,
    pub processors: Seq<ProcessorView>,
}

impl SocketView {
    /// Whether each processor of the socket is valid.
    pub open spec fn valid(self) -> bool {
        forall|i: int| 0 <= i < self.processors.len() ==> (#[trigger] self.processors[i]).valid()
    }
}

impl View for SocketInfo {
    type V = SocketView;

    open spec fn view(&self) -> SocketView {
        SocketView { name: self.name@, processors: processor_views(self.processors@) }
    }
}

/// The sockets of a list as contracts speak of them, in the same order.
pub open spec fn socket_views(sockets: Seq<SocketInfo>) -> Seq<SocketView> {
    sockets.map_values(|s: SocketInfo| s@)
}

} // verus!
