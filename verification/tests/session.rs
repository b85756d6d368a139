use amd_smi_lib::error::AmdSmiError;
use amd_smi_lib::AmdSmi;
use amd_smi_lib::InitFlags;
use amd_smi_lib::INIT_ALL;
use amd_smi_lib::INIT_AMD_APUS;
use amd_smi_lib::INIT_AMD_CPUS;
use amd_smi_lib::INIT_AMD_GPUS;
use amd_smi_lib::INIT_NON_AMD_CPUS;
use amd_smi_lib::INIT_NON_AMD_GPUS;

#[test]
pub fn main_test() {
    AmdSmi::init_gpu(0).unwrap();
}

#[test]
fn flag_bits() {
    assert_eq!(InitFlags::cpu().bits(), 1);
    assert_eq!(InitFlags::gpu().bits(), 2);
    assert_eq!(InitFlags::apu().bits(), 3);
    assert_eq!(InitFlags::non_amd_cpu().bits(), 4);
    assert_eq!(InitFlags::non_amd_gpu().bits(), 8);
    assert_eq!(InitFlags::empty().bits(), 0);
    assert_eq!(InitFlags::all().bits(), 15);
    assert_eq!(
        (INIT_AMD_CPUS, INIT_AMD_GPUS, INIT_AMD_APUS, INIT_NON_AMD_CPUS, INIT_NON_AMD_GPUS, INIT_ALL),
        (1, 2, 3, 4, 8, 15)
    );
}

#[test]
fn flags_as_u64() {
    assert_eq!(InitFlags::gpu().as_u64(), 2u64);
    assert_eq!(InitFlags::cpu().union(InitFlags::non_amd_gpu()).as_u64(), 9u64);
    assert_eq!(InitFlags::all().as_u64(), 15u64);
    assert_eq!(InitFlags::empty().as_u64(), 0u64);
}

#[test]
fn flags_union_and_contains() {
    let both = InitFlags::cpu().union(InitFlags::gpu());
    assert_eq!(both, InitFlags::apu());
    assert!(both.contains(InitFlags::cpu()));
    assert!(both.contains(InitFlags::gpu()));
    assert!(both.contains(InitFlags::empty()));
    assert!(!both.contains(InitFlags::non_amd_cpu()));
    assert!(!InitFlags::cpu().contains(both));
    assert!(InitFlags::all().contains(both));
    assert_eq!(both.union(InitFlags::empty()), both);
}

#[test]
fn flags_from_bits() {
    assert_eq!(InitFlags::from_bits(2), Some(InitFlags::gpu()));
    assert_eq!(InitFlags::from_bits(0), Some(InitFlags::empty()));
    assert_eq!(InitFlags::from_bits(15), Some(InitFlags::all()));
    assert_eq!(InitFlags::from_bits(16), None);
    assert_eq!(InitFlags::from_bits(17), None);
    assert_eq!(InitFlags::from_bits(u32::MAX), None);
    for bits in 0u32..=15 {
        assert_eq!(InitFlags::from_bits(bits).unwrap().bits(), bits);
    }
}

#[test]
fn flags_is_empty() {
    assert!(InitFlags::empty().is_empty());
    assert!(!InitFlags::gpu().is_empty());
    assert!(!InitFlags::all().is_empty());
}

#[test]
fn init_argument_of_flags() {
    assert_eq!(AmdSmi::init_argument(InitFlags::gpu()), Ok(2));
    assert_eq!(AmdSmi::init_argument(InitFlags::all()), Ok(15));
    assert_eq!(AmdSmi::init_argument(InitFlags::empty()), Err(AmdSmiError::AmdsmiStatusInval));
}

#[test]
fn session_opens_on_success() {
    let session = AmdSmi::with_flags(InitFlags::cpu().union(InitFlags::gpu()), 0).ok().unwrap();
    assert_eq!(session.mode(), InitFlags::apu());
    let session = AmdSmi::init_gpu(0).ok().unwrap();
    assert_eq!(session.mode(), InitFlags::gpu());
}

#[test]
fn session_fails_with_the_status() {
    assert_eq!(AmdSmi::with_flags(InitFlags::gpu(), 1).err(), Some(AmdSmiError::AmdsmiStatusInval));
    assert_eq!(
        AmdSmi::with_flags(InitFlags::cpu(), 2).err(),
        Some(AmdSmiError::AmdsmiStatusNotSupported)
    );
    assert_eq!(AmdSmi::init_gpu(34).err(), Some(AmdSmiError::AmdsmiStatusDriverNotLoaded));
    assert_eq!(AmdSmi::init_gpu(u32::MAX).err(), Some(AmdSmiError::AmdsmiStatusUnknownError));
    assert_eq!(AmdSmi::init_gpu(77).err(), Some(AmdSmiError::AmdsmiStatusUnknownError));
}

#[test]
fn session_without_flags_fails() {
    assert_eq!(AmdSmi::with_flags(InitFlags::empty(), 0).err(), Some(AmdSmiError::AmdsmiStatusInval));
    assert_eq!(
        AmdSmi::with_flags(InitFlags::empty(), 32).err(),
        Some(AmdSmiError::AmdsmiStatusInval)
    );
}

#[test]
fn session_shuts_down() {
    assert_eq!(AmdSmi::init_gpu(0).ok().unwrap().shut_down(0), Ok(()));
    assert_eq!(
        AmdSmi::init_gpu(0).ok().unwrap().shut_down(32),
        Err(AmdSmiError::AmdsmiStatusNotInit)
    );
}
