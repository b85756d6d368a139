//! Status codes of the management library and the error kinds they stand for.
//!
//! Every call into the management library answers with a 32-bit status code.
//! Zero means success; every other code is a failure and maps to exactly one
//! [`AmdSmiError`]. Codes outside the table map to
//! [`AmdSmiError::AmdsmiStatusUnknownError`], so no failure is ever taken for
//! a success and no code is left without a kind.

use vstd::prelude::*;

verus! {

/// The status code of a call that succeeded.
pub const STATUS_SUCCESS: u32 = 0;

/// The failure kinds of the management library, one for each status code of
/// its table.
#[derive(Debug, Clone, Copy, PartialEq, Eq, Structural)]
pub enum AmdSmiError {
    /// An argument was not valid.
    AmdsmiStatusInval,
    /// The operation is not supported on this device.
    AmdsmiStatusNotSupported,
    /// The operation is not implemented yet.
    AmdsmiStatusNotYetImplemented,
    /// A module could not be loaded.
    AmdsmiStatusFailLoadModule,
    /// A symbol could not be loaded.
    AmdsmiStatusFailLoadSymbol,
    /// A call into the DRM layer failed.
    AmdsmiStatusDrmError,
    /// A call into the driver API failed.
    AmdsmiStatusApiFailed,
    /// The operation timed out.
    AmdsmiStatusTimeout,
    /// The operation should be tried again.
    AmdsmiStatusRetry,
    /// Permission was denied.
    AmdsmiStatusNoPerm,
    /// The operation was interrupted.
    AmdsmiStatusInterrupt,
    /// An input or output operation failed.
    AmdsmiStatusIo,
    /// A bad address was used.
    AmdsmiStatusAddressFault,
    /// A file could not be opened or read.
    AmdsmiStatusFileError,
    /// Not enough memory or other resources.
    AmdsmiStatusOutOfResources,
    /// An internal exception was caught.
    AmdsmiStatusInternalException,
    /// An input lay outside the allowed range.
    AmdsmiStatusInputOutOfBounds,
    /// Initialisation failed.
    AmdsmiStatusInitError,
    /// An internal reference counter overflowed.
    AmdsmiStatusRefcountOverflow,
    /// The device is busy.
    AmdsmiStatusBusy,
    /// The device was not found.
    AmdsmiStatusNotFound,
    /// The device or the library is not initialised.
    AmdsmiStatusNotInit,
    /// No free slot is left.
    AmdsmiStatusNoSlot,
    /// The processor driver is not loaded.
    AmdsmiStatusDriverNotLoaded,
    /// No data was found for the input.
    AmdsmiStatusNoData,
    /// The buffer handed in was too small.
    AmdsmiStatusInsufficientSize,
    /// Data of an unexpected size was read.
    AmdsmiStatusUnexpectedSize,
    /// The data read or handed in was not as expected.
    AmdsmiStatusUnexpectedData,
    /// The system has a CPU of another vendor.
    AmdsmiStatusNonAmdCpu,
    /// The energy driver was not found.
    AmdsmiStatusNoEnergyDrv,
    /// The MSR driver was not found.
    AmdsmiStatusNoMsrDrv,
    /// The HSMP driver was not found.
    AmdsmiStatusNoHsmpDrv,
    /// HSMP is not supported.
    AmdsmiStatusNoHsmpSup,
    /// The HSMP message or feature is not supported.
    AmdsmiStatusNoHsmpMsgSup,
    /// An HSMP message timed out.
    AmdsmiStatusHsmpTimeout,
    /// No energy or HSMP driver is present.
    AmdsmiStatusNoDrv,
    /// A file or directory was not found.
    AmdsmiStatusFileNotFound,
    /// A pointer argument was null.
    AmdsmiStatusArgPtrNull,
    /// The GPU driver could not be restarted.
    AmdsmiStatusAmdgpuRestartErr,
    /// The setting is not available.
    AmdsmiStatusSettingUnavailable,
    /// The EEPROM is corrupted.
    AmdsmiStatusCorruptedEeprom,
    /// The internal library error has no counterpart among the status codes.
    AmdsmiStatusMapError,
    /// An unknown error occurred.
    AmdsmiStatusUnknownError,
}

impl AmdSmiError {
    /// The status code that stands for this kind.
    pub open spec fn spec_code(&self) -> u32 {
        match self {
            AmdSmiError::AmdsmiStatusInval => 1,
            AmdSmiError::AmdsmiStatusNotSupported => 2,
            AmdSmiError::AmdsmiStatusNotYetImplemented => 3,
            AmdSmiError::AmdsmiStatusFailLoadModule => 4,
            AmdSmiError::AmdsmiStatusFailLoadSymbol => 5,
            AmdSmiError::AmdsmiStatusDrmError => 6,
            AmdSmiError::AmdsmiStatusApiFailed => 7,
            AmdSmiError::AmdsmiStatusTimeout => 8,
            AmdSmiError::AmdsmiStatusRetry => 9,
            AmdSmiError::AmdsmiStatusNoPerm => 10,
            AmdSmiError::AmdsmiStatusInterrupt => 11,
            AmdSmiError::AmdsmiStatusIo => 12,
            AmdSmiError::AmdsmiStatusAddressFault => 13,
            AmdSmiError::AmdsmiStatusFileError => 14,
            AmdSmiError::AmdsmiStatusOutOfResources => 15,
            AmdSmiError::AmdsmiStatusInternalException => 16,
            AmdSmiError::AmdsmiStatusInputOutOfBounds => 17,
            AmdSmiError::AmdsmiStatusInitError => 18,
            AmdSmiError::AmdsmiStatusRefcountOverflow => 19,
            AmdSmiError::AmdsmiStatusBusy => 30,
            AmdSmiError::AmdsmiStatusNotFound => 31,
            AmdSmiError::AmdsmiStatusNotInit => 32,
            AmdSmiError::AmdsmiStatusNoSlot => 33,
            AmdSmiError::AmdsmiStatusDriverNotLoaded => 34,
            AmdSmiError::AmdsmiStatusNoData => 40,
            AmdSmiError::AmdsmiStatusInsufficientSize => 41,
            AmdSmiError::AmdsmiStatusUnexpectedSize => 42,
            AmdSmiError::AmdsmiStatusUnexpectedData => 43,
            AmdSmiError::AmdsmiStatusNonAmdCpu => 44,
            AmdSmiError::AmdsmiStatusNoEnergyDrv => 45,
            AmdSmiError::AmdsmiStatusNoMsrDrv => 46,
            AmdSmiError::AmdsmiStatusNoHsmpDrv => 47,
            AmdSmiError::AmdsmiStatusNoHsmpSup => 48,
            AmdSmiError::AmdsmiStatusNoHsmpMsgSup => 49,
            AmdSmiError::AmdsmiStatusHsmpTimeout => 50,
            AmdSmiError::AmdsmiStatusNoDrv => 51,
            AmdSmiError::AmdsmiStatusFileNotFound => 52,
            AmdSmiError::AmdsmiStatusArgPtrNull => 53,
            AmdSmiError::AmdsmiStatusAmdgpuRestartErr => 54,
            AmdSmiError::AmdsmiStatusSettingUnavailable => 55,
            AmdSmiError::AmdsmiStatusCorruptedEeprom => 56,
            AmdSmiError::AmdsmiStatusMapError => 4294967294,
            AmdSmiError::AmdsmiStatusUnknownError => 4294967295,
        }
    }

    /// The status code that stands for this kind.
    #[verifier::when_used_as_spec(spec_code)]
    pub fn code(&self) -> (c: u32)
        ensures
            c == self.spec_code(),
            c != STATUS_SUCCESS,
    {
        match self {
            AmdSmiError::AmdsmiStatusInval => 1,
            AmdSmiError::AmdsmiStatusNotSupported => 2,
            AmdSmiError::AmdsmiStatusNotYetImplemented => 3,
            AmdSmiError::AmdsmiStatusFailLoadModule => 4,
            AmdSmiError::AmdsmiStatusFailLoadSymbol => 5,
            AmdSmiError::AmdsmiStatusDrmError => 6,
            AmdSmiError::AmdsmiStatusApiFailed => 7,
            AmdSmiError::AmdsmiStatusTimeout => 8,
            AmdSmiError::AmdsmiStatusRetry => 9,
            AmdSmiError::AmdsmiStatusNoPerm => 10,
            AmdSmiError::AmdsmiStatusInterrupt => 11,
            AmdSmiError::AmdsmiStatusIo => 12,
            AmdSmiError::AmdsmiStatusAddressFault => 13,
            AmdSmiError::AmdsmiStatusFileError => 14,
            AmdSmiError::AmdsmiStatusOutOfResources => 15,
            AmdSmiError::AmdsmiStatusInternalException => 16,
            AmdSmiError::AmdsmiStatusInputOutOfBounds => 17,
            AmdSmiError::AmdsmiStatusInitError => 18,
            AmdSmiError::AmdsmiStatusRefcountOverflow => 19,
            AmdSmiError::AmdsmiStatusBusy => 30,
            AmdSmiError::AmdsmiStatusNotFound => 31,
            AmdSmiError::AmdsmiStatusNotInit => 32,
            AmdSmiError::AmdsmiStatusNoSlot => 33,
            AmdSmiError::AmdsmiStatusDriverNotLoaded => 34,
            AmdSmiError::AmdsmiStatusNoData => 40,
            AmdSmiError::AmdsmiStatusInsufficientSize => 41,
            AmdSmiError::AmdsmiStatusUnexpectedSize => 42,
            AmdSmiError::AmdsmiStatusUnexpectedData => 43,
            AmdSmiError::AmdsmiStatusNonAmdCpu => 44,
            AmdSmiError::AmdsmiStatusNoEnergyDrv => 45,
            AmdSmiError::AmdsmiStatusNoMsrDrv => 46,
            AmdSmiError::AmdsmiStatusNoHsmpDrv => 47,
            AmdSmiError::AmdsmiStatusNoHsmpSup => 48,
            AmdSmiError::AmdsmiStatusNoHsmpMsgSup => 49,
            AmdSmiError::AmdsmiStatusHsmpTimeout => 50,
            AmdSmiError::AmdsmiStatusNoDrv => 51,
            AmdSmiError::AmdsmiStatusFileNotFound => 52,
            AmdSmiError::AmdsmiStatusArgPtrNull => 53,
            AmdSmiError::AmdsmiStatusAmdgpuRestartErr => 54,
            AmdSmiError::AmdsmiStatusSettingUnavailable => 55,
            AmdSmiError::AmdsmiStatusCorruptedEeprom => 56,
            AmdSmiError::AmdsmiStatusMapError => 4294967294,
            AmdSmiError::AmdsmiStatusUnknownError => 4294967295,
        }
    }
}

/// Whether `value` is one of the failure codes of the table.
pub open spec fn is_known_failure(value: u32) -> bool {
    ||| 1 <= value <= 19
    ||| 30 <= value <= 34
    ||| 40 <= value <= 56
    ||| value == 4294967294
    ||| value == 4294967295
}

/// The error kind that the failure code `value` stands for: the kind of the
/// table where `value` is in it, and the unknown error for every other code.
pub open spec fn status_kind(value: u32) -> AmdSmiError {
    if value == 1 {
        AmdSmiError::AmdsmiStatusInval
    } else if value == 2 {
        AmdSmiError::AmdsmiStatusNotSupported
    } else if value == 3 {
        AmdSmiError::AmdsmiStatusNotYetImplemented
    } else if value == 4 {
        AmdSmiError::AmdsmiStatusFailLoadModule
    } else if value == 5 {
        AmdSmiError::AmdsmiStatusFailLoadSymbol
    } else if value == 6 {
        AmdSmiError::AmdsmiStatusDrmError
    } else if value == 7 {
        AmdSmiError::AmdsmiStatusApiFailed
    } else if value == 8 {
        AmdSmiError::AmdsmiStatusTimeout
    } else if value == 9 {
        AmdSmiError::AmdsmiStatusRetry
    } else if value == 10 {
        AmdSmiError::AmdsmiStatusNoPerm
    } else if value == 11 {
        AmdSmiError::AmdsmiStatusInterrupt
    } else if value == 12 {
        AmdSmiError::AmdsmiStatusIo
    } else if value == 13 {
        AmdSmiError::AmdsmiStatusAddressFault
    } else if value == 14 {
        AmdSmiError::AmdsmiStatusFileError
    } else if value == 15 {
        AmdSmiError::AmdsmiStatusOutOfResources
    } else if value == 16 {
        AmdSmiError::AmdsmiStatusInternalException
    } else if value == 17 {
        AmdSmiError::AmdsmiStatusInputOutOfBounds
    } else if value == 18 {
        AmdSmiError::AmdsmiStatusInitError
    } else if value == 19 {
        AmdSmiError::AmdsmiStatusRefcountOverflow
    } else if value == 30 {
        AmdSmiError::AmdsmiStatusBusy
    } else if value == 31 {
        AmdSmiError::AmdsmiStatusNotFound
    } else if value == 32 {
        AmdSmiError::AmdsmiStatusNotInit
    } else if value == 33 {
        AmdSmiError::AmdsmiStatusNoSlot
    } else if value == 34 {
        AmdSmiError::AmdsmiStatusDriverNotLoaded
    } else if value == 40 {
        AmdSmiError::AmdsmiStatusNoData
    } else if value == 41 {
        AmdSmiError::AmdsmiStatusInsufficientSize
    } else if value == 42 {
        AmdSmiError::AmdsmiStatusUnexpectedSize
    } else if value == 43 {
        AmdSmiError::AmdsmiStatusUnexpectedData
    } else if value == 44 {
        AmdSmiError::AmdsmiStatusNonAmdCpu
    } else if value == 45 {
        AmdSmiError::AmdsmiStatusNoEnergyDrv
    } else if value == 46 {
        AmdSmiError::AmdsmiStatusNoMsrDrv
    } else if value == 47 {
        AmdSmiError::AmdsmiStatusNoHsmpDrv
    } else if value == 48 {
        AmdSmiError::AmdsmiStatusNoHsmpSup
    } else if value == 49 {
        AmdSmiError::AmdsmiStatusNoHsmpMsgSup
    } else if value == 50 {
        AmdSmiError::AmdsmiStatusHsmpTimeout
    } else if value == 51 {
        AmdSmiError::AmdsmiStatusNoDrv
    } else if value == 52 {
        AmdSmiError::AmdsmiStatusFileNotFound
    } else if value == 53 {
        AmdSmiError::AmdsmiStatusArgPtrNull
    } else if value == 54 {
        AmdSmiError::AmdsmiStatusAmdgpuRestartErr
    } else if value == 55 {
        AmdSmiError::AmdsmiStatusSettingUnavailable
    } else if value == 56 {
        AmdSmiError::AmdsmiStatusCorruptedEeprom
    } else if value == 4294967294 {
        AmdSmiError::AmdsmiStatusMapError
    } else {
        AmdSmiError::AmdsmiStatusUnknownError
    }
}

/// What a status code means: success for zero, and for every other code the
/// failure of its kind.
pub open spec fn status_result(value: u32) -> Result<(), AmdSmiError> {
    if value == STATUS_SUCCESS {
        Ok(())
    } else {
        Err(status_kind(value))
    }
}

/// Maps a status code to a result: `Ok` for zero and for nothing else, and
/// for every other code the error kind that [`status_kind`] gives.
pub fn result_from_amd_smi_status_t(value: u32) -> (r: Result<(), AmdSmiError>)
    ensures
        r == status_result(value),
        r is Ok <==> value == STATUS_SUCCESS,
{
    match value {
        0 => Ok(()),
        1 => Err(AmdSmiError::AmdsmiStatusInval),
        2 => Err(AmdSmiError::AmdsmiStatusNotSupported),
        3 => Err(AmdSmiError::AmdsmiStatusNotYetImplemented),
        4 => Err(AmdSmiError::AmdsmiStatusFailLoadModule),
        5 => Err(AmdSmiError::AmdsmiStatusFailLoadSymbol),
        6 => Err(AmdSmiError::AmdsmiStatusDrmError),
        7 => Err(AmdSmiError::AmdsmiStatusApiFailed),
        8 => Err(AmdSmiError::AmdsmiStatusTimeout),
        9 => Err(AmdSmiError::AmdsmiStatusRetry),
        10 => Err(AmdSmiError::AmdsmiStatusNoPerm),
        11 => Err(AmdSmiError::AmdsmiStatusInterrupt),
        12 => Err(AmdSmiError::AmdsmiStatusIo),
        13 => Err(AmdSmiError::AmdsmiStatusAddressFault),
        14 => Err(AmdSmiError::AmdsmiStatusFileError),
        15 => Err(AmdSmiError::AmdsmiStatusOutOfResources),
        16 => Err(AmdSmiError::AmdsmiStatusInternalException),
        17 => Err(AmdSmiError::AmdsmiStatusInputOutOfBounds),
        18 => Err(AmdSmiError::AmdsmiStatusInitError),
        19 => Err(AmdSmiError::AmdsmiStatusRefcountOverflow),
        30 => Err(AmdSmiError::AmdsmiStatusBusy),
        31 => Err(AmdSmiError::AmdsmiStatusNotFound),
        32 => Err(AmdSmiError::AmdsmiStatusNotInit),
        33 => Err(AmdSmiError::AmdsmiStatusNoSlot),
        34 => Err(AmdSmiError::AmdsmiStatusDriverNotLoaded),
        40 => Err(AmdSmiError::AmdsmiStatusNoData),
        41 => Err(AmdSmiError::AmdsmiStatusInsufficientSize),
        42 => Err(AmdSmiError::AmdsmiStatusUnexpectedSize),
        43 => Err(AmdSmiError::AmdsmiStatusUnexpectedData),
        44 => Err(AmdSmiError::AmdsmiStatusNonAmdCpu),
        45 => Err(AmdSmiError::AmdsmiStatusNoEnergyDrv),
        46 => Err(AmdSmiError::AmdsmiStatusNoMsrDrv),
        47 => Err(AmdSmiError::AmdsmiStatusNoHsmpDrv),
        48 => Err(AmdSmiError::AmdsmiStatusNoHsmpSup),
        49 => Err(AmdSmiError::AmdsmiStatusNoHsmpMsgSup),
        50 => Err(AmdSmiError::AmdsmiStatusHsmpTimeout),
        51 => Err(AmdSmiError::AmdsmiStatusNoDrv),
        52 => Err(AmdSmiError::AmdsmiStatusFileNotFound),
        53 => Err(AmdSmiError::AmdsmiStatusArgPtrNull),
        54 => Err(AmdSmiError::AmdsmiStatusAmdgpuRestartErr),
        55 => Err(AmdSmiError::AmdsmiStatusSettingUnavailable),
        56 => Err(AmdSmiError::AmdsmiStatusCorruptedEeprom),
        4294967294 => Err(AmdSmiError::AmdsmiStatusMapError),
        _ => Err(AmdSmiError::AmdsmiStatusUnknownError),
    }
}

/// A value that carries a status code and can be read as a result.
pub trait IntoAmdSmiResult {
    /// Reads the value as the outcome of a call.
    fn into_amd_smi_result(self) -> Result<(), AmdSmiError>;
}

impl IntoAmdSmiResult for u32 {
    /// Reads a status code as [`result_from_amd_smi_status_t`] does.
    fn into_amd_smi_result(self) -> (r: Result<(), AmdSmiError>)
        ensures
            r == status_result(self),
            r is Ok <==> self == STATUS_SUCCESS,
    {
        result_from_amd_smi_status_t(self)
    }
}

/// Every error kind is the kind of its own code: mapping the code of a kind
/// gives that kind back, and never success.
pub proof fn lemma_kind_of_code(kind: AmdSmiError)
    ensures
        status_kind(kind.spec_code()) == kind,
        status_result(kind.spec_code()) == Err::<(), AmdSmiError>(kind),
        is_known_failure(kind.spec_code()),
{
}

/// A failure code of the table is the code of the kind it maps to; a code
/// outside the table maps to the unknown error.
pub proof fn lemma_code_of_kind(value: u32)
    ensures
        is_known_failure(value) ==> status_kind(value).spec_code() == value,
        !is_known_failure(value) ==> status_kind(value) == AmdSmiError::AmdsmiStatusUnknownError,
        is_known_failure(value) <==> exists|kind: AmdSmiError| kind.spec_code() == value,
{
    if is_known_failure(value) {
        assert(status_kind(value).spec_code() == value);
    } else {
        assert forall|kind: AmdSmiError| kind.spec_code() != value by {
            lemma_kind_of_code(kind);
        }
    }
}

} // verus!
