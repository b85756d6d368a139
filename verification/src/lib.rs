//! Discovery of the sockets and processors that the AMD system management
//! library reports, with the conversions from its raw answers proved correct.
//!
//! The calls into the management library are made by the caller. This
//! library decides what is asked, in which order, and what each answer means:
//! [`AmdSmi`] is the session, [`enumerator::Enumerator`] the enumeration of
//! sockets and processors, [`error`] the meaning of the status codes, and
//! [`util`] the text of the buffers. What an enumeration computes is proved
//! in [`host`] against a model of the management library.
//!
//! The identifiers of a GPU are those that version 24.7 of the management
//! library offers: bus address, unique identifier, device identifier,
//! revision, vendor's name, subsystem identifier and subsystem's name.

use vstd::prelude::*;

use crate::enumerator::Enumerator;
use crate::enumerator::EnumeratorView;
use crate::error::result_from_amd_smi_status_t;
use crate::error::status_kind;
use crate::error::status_result;
use crate::error::AmdSmiError;
use crate::error::STATUS_SUCCESS;

pub mod discovery;
pub mod enumerator;
pub mod error;
pub mod handles;
pub mod host;
pub mod util;

verus! {

/// The bit that selects the CPUs of AMD.
pub const INIT_AMD_CPUS: u32 = 1;

/// The bit that selects the GPUs of AMD.
pub const INIT_AMD_GPUS: u32 = 2;

/// The bit that selects the CPUs of other vendors.
pub const INIT_NON_AMD_CPUS: u32 = 4;

/// The bit that selects the GPUs of other vendors.
pub const INIT_NON_AMD_GPUS: u32 = 8;

/// The bits that select the APUs of AMD: those of its CPUs and of its GPUs.
pub const INIT_AMD_APUS: u32 = 3;

/// All the bits that select a class of devices.
pub const INIT_ALL: u32 = 15;

/// The classes of devices that a session is opened for: a set of the bits
/// above, and of no others.
#[derive(Debug, Clone, Copy, PartialEq, Eq, Structural)]
pub struct InitFlags {
    bits: u32,
}

impl InitFlags {
    #[verifier::type_invariant]
    spec fn inv(self) -> bool {
        self.bits <= INIT_ALL
    }

    /// The bits of the set.
    pub closed spec fn spec_bits(&self) -> u32 {
        self.bits
    }

    /// Whether no class is selected.
    pub open spec fn spec_is_empty(&self) -> bool {
        self.spec_bits() == 0
    }

    /// The set that selects nothing.
    pub fn empty() -> (flags: InitFlags)
        ensures
            flags.spec_bits() == 0,
    {
        InitFlags { bits: 0 }
    }

    /// The set that selects every class.
    pub fn all() -> (flags: InitFlags)
        ensures
            flags.spec_bits() == INIT_ALL,
    {
        InitFlags { bits: INIT_ALL }
    }

    /// The CPUs of AMD.
    pub fn cpu() -> (flags: InitFlags)
        ensures
            flags.spec_bits() == INIT_AMD_CPUS,
    {
        InitFlags { bits: INIT_AMD_CPUS }
    }

    /// The GPUs of AMD.
    pub fn gpu() -> (flags: InitFlags)
        ensures
            flags.spec_bits() == INIT_AMD_GPUS,
    {
        InitFlags { bits: INIT_AMD_GPUS }
    }

    /// The APUs of AMD.
    pub fn apu() -> (flags: InitFlags)
        ensures
            flags.spec_bits() == INIT_AMD_APUS,
    {
        InitFlags { bits: INIT_AMD_APUS }
    }

    /// The CPUs of other vendors.
    pub fn non_amd_cpu() -> (flags: InitFlags)
        ensures
            flags.spec_bits() == INIT_NON_AMD_CPUS,
    {
        InitFlags { bits: INIT_NON_AMD_CPUS }
    }

    /// The GPUs of other vendors.
    pub fn non_amd_gpu() -> (flags: InitFlags)
        ensures
            flags.spec_bits() == INIT_NON_AMD_GPUS,
    {
        InitFlags { bits: INIT_NON_AMD_GPUS }
    }

    /// The set with the bits `bits`, where each of them selects a class;
    /// nothing where one of them does not.
    pub fn from_bits(bits: u32) -> (flags: Option<InitFlags>)
        ensures
            flags is Some <==> bits & !INIT_ALL == 0,
            flags matches Some(f) ==> f.spec_bits() == bits,
    {
        assert(bits & !15u32 == 0 <==> bits <= 15) by (bit_vector);
        if bits <= INIT_ALL {
            Some(InitFlags { bits })
        } else {
            None
        }
    }

    /// The bits of the set.
    #[verifier::when_used_as_spec(spec_bits)]
    pub fn bits(&self) -> (bits: u32)
        ensures
            bits == self.spec_bits(),
            bits <= INIT_ALL,
    {
        proof {
            use_type_invariant(self);
        }
        self.bits
    }

    /// The bits of the set as the management library takes them.
    pub fn as_u64(&self) -> (bits: u64)
        ensures
            bits == self.spec_bits(),
            bits <= INIT_ALL,
    {
        self.bits() as u64
    }

    /// Whether no class is selected.
    #[verifier::when_used_as_spec(spec_is_empty)]
    pub fn is_empty(&self) -> (empty: bool)
        ensures
            empty == self.spec_is_empty(),
    {
        self.bits == 0
    }

    /// Whether every class that `other` selects is selected.
    pub fn contains(&self, other: InitFlags) -> (all: bool)
        ensures
            all == (self.spec_bits() & other.spec_bits() == other.spec_bits()),
    {
        self.bits & other.bits == other.bits
    }

    /// The set of the classes that this set or `other` selects.
    pub fn union(self, other: InitFlags) -> (flags: InitFlags)
        ensures
            flags.spec_bits() == self.spec_bits() | other.spec_bits(),
    {
        proof {
            use_type_invariant(self);
            use_type_invariant(other);
        }
        let a: u32 = self.bits;
        let b: u32 = other.bits;
        assert(a | b <= 15) by (bit_vector)
            requires
                a <= 15,
                b <= 15,
        ;
        InitFlags { bits: a | b }
    }
}

/// Two sets with the same bits are the same set.
pub proof fn lemma_flags_by_bits(a: InitFlags, b: InitFlags)
    ensures
        a.spec_bits() == b.spec_bits() <==> a == b,
{
}

/// A session with the management library, opened for some classes of
/// devices.
///
/// The management library keeps one state for the whole process, so one
/// session at a time is to be open. A session is closed by shutting the
/// management library down, once and on every path.
pub struct AmdSmi {
    mode: InitFlags,
}

impl AmdSmi {
    #[verifier::type_invariant]
    spec fn inv(self) -> bool {
        !self.mode.spec_is_empty()
    }

    /// The classes of devices that the session was opened for.
    pub closed spec fn spec_mode(&self) -> InitFlags {
        self.mode
    }

    /// The classes of devices that the session was opened for. At least one
    /// is selected.
    #[verifier::when_used_as_spec(spec_mode)]
    pub fn mode(&self) -> (mode: InitFlags)
        ensures
            mode == self.spec_mode(),
            !mode.spec_is_empty(),
    {
        proof {
            use_type_invariant(self);
        }
        self.mode
    }

    /// What the management library is to be initialised with for `flags`:
    /// their bits, and an invalid argument where no class is selected, for
    /// which the management library is not called.
    pub fn init_argument(flags: InitFlags) -> (r: Result<u64, AmdSmiError>)
        ensures
            r is Ok <==> !flags.spec_is_empty(),
            r matches Ok(bits) ==> bits == flags.spec_bits(),
            r matches Err(e) ==> e == AmdSmiError::AmdsmiStatusInval,
    {
        if flags.is_empty() {
            Err(AmdSmiError::AmdsmiStatusInval)
        } else {
            Ok(flags.as_u64())
        }
    }

    /// Opens a session for `flags`, given the status code `status` with which
    /// the management library answered its initialisation.
    ///
    /// The session is open exactly where a class is selected and the status
    /// is success. Without a class the argument is invalid; otherwise the
    /// failure is that of the status code.
    pub fn with_flags(flags: InitFlags, status: u32) -> (r: Result<AmdSmi, AmdSmiError>)
        ensures
            r is Ok <==> !flags.spec_is_empty() && status == STATUS_SUCCESS,
            r matches Ok(session) ==> session.spec_mode() == flags,
            r matches Err(e) ==> e == if flags.spec_is_empty() {
                AmdSmiError::AmdsmiStatusInval
            } else {
                status_kind(status)
            },
    {
        if flags.is_empty() {
            return Err(AmdSmiError::AmdsmiStatusInval);
        }
        match result_from_amd_smi_status_t(status) {
            Ok(()) => Ok(AmdSmi { mode: flags }),
            Err(e) => Err(e),
        }
    }

    /// Opens a session for the GPUs of AMD alone, given the status code with
    /// which the management library answered its initialisation.
    pub fn init_gpu(status: u32) -> (r: Result<AmdSmi, AmdSmiError>)
        ensures
            r is Ok <==> status == STATUS_SUCCESS,
            r matches Ok(session) ==> session.spec_mode().spec_bits() == INIT_AMD_GPUS,
            r matches Err(e) ==> e == status_kind(status),
    {
        AmdSmi::with_flags(InitFlags::gpu(), status)
    }

    /// Starts an enumeration of the sockets and their processors. The
    /// session stays as it is.
    pub fn get_sockets_info(&mut self) -> (enumerator: Enumerator)
        ensures
            enumerator@ == EnumeratorView::start(),
            enumerator@.wf(),
            final(self).spec_mode() == old(self).spec_mode(),
    {
        Enumerator::new()
    }

    /// Closes the session, given the status code with which the management
    /// library answered its shutdown: the failure of that code, if it is one.
    pub fn shut_down(self, status: u32) -> (r: Result<(), AmdSmiError>)
        ensures
            r == status_result(status),
    {
        result_from_amd_smi_status_t(status)
    }
}

} // verus!
